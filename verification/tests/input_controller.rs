use tp1::errors::Error;
use tp1::input_controller::InputController;

#[test]
fn test01_get_a_valid_filename() {
    let icontrolller = InputController::new(Some("orders.json".to_string())).unwrap();
    let expected_file = "orders.json".to_string();
    let got_file = icontrolller.filename;
    assert_eq!(expected_file, got_file);
}

#[test]
fn test02_not_get_a_filename() {
    let result = InputController::new(None).unwrap_err();
    let err_expected = Error::NotFileInput;

    assert_eq!(result, err_expected);
}
