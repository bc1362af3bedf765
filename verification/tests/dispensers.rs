use tp1::coffee_maker::CoffeeMaker;
use tp1::container::Container;
use tp1::dispensers::{
    after_attempt, amount, attempt, ingredient, make_order, notify_one_order_processed, result_of,
    take_one, Attempt, Next, Verdict,
};
use tp1::errors::Error;
use tp1::ingredient_handler::can_be_replenished;
use tp1::orders::Order;

#[test]
fn an_ingredient_that_was_taken_is_followed_by_the_next() {
    let verdict = after_attempt(true, false, Attempt::Got { left: 20 }, 20);
    assert_eq!(verdict, Verdict { notify: false, next: Next::Proceed });
    let verdict = after_attempt(true, false, Attempt::Got { left: 19 }, 20);
    assert_eq!(verdict, Verdict { notify: true, next: Next::Proceed });
    let verdict = after_attempt(true, true, Attempt::Got { left: 0 }, 20);
    assert_eq!(verdict, Verdict { notify: true, next: Next::Proceed });
    let verdict = after_attempt(false, false, Attempt::Got { left: 0 }, 20);
    assert_eq!(verdict, Verdict { notify: false, next: Next::Proceed });
}

#[test]
fn a_missing_ingredient_is_asked_for_exactly_once_more() {
    let first = after_attempt(true, false, Attempt::Missing, 20);
    assert_eq!(first, Verdict { notify: true, next: Next::Retry });
    let second = after_attempt(true, true, Attempt::Missing, 20);
    assert_eq!(second, Verdict { notify: false, next: Next::GiveUp });
}

#[test]
fn cocoa_that_is_missing_is_not_asked_for_again() {
    let verdict = after_attempt(false, false, Attempt::Missing, 20);
    assert_eq!(verdict, Verdict { notify: false, next: Next::GiveUp });
}

#[test]
fn an_order_asks_for_coffee_water_cocoa_and_foam() {
    let order = Order::new(1, 2, 3, 4);
    let asked: Vec<(String, u32)> = (0..4).map(|i| (ingredient(i), amount(&order, i))).collect();
    assert_eq!(
        asked,
        vec![
            ("coffee".to_string(), 1),
            ("hot_water".to_string(), 2),
            ("cocoa".to_string(), 3),
            ("foam".to_string(), 4),
        ]
    );
}

#[test]
fn coffee_hot_water_and_foam_can_be_replenished() {
    assert!(can_be_replenished("coffee"));
    assert!(can_be_replenished("hot_water"));
    assert!(can_be_replenished("foam"));
    assert!(!can_be_replenished("cocoa"));
    assert!(!can_be_replenished("milk"));
    assert!(!can_be_replenished("grain_coffee"));
    assert!(!can_be_replenished("cold_water"));
}

#[test]
fn a_processed_order_is_counted() {
    let mut orders_processed = 41;
    notify_one_order_processed(&mut orders_processed, 0, 0).expect("a count does not fail");
    assert_eq!(orders_processed, 42);
}

#[test]
fn taking_one_ingredient_changes_that_ingredient_only() {
    let mut coffee_maker = CoffeeMaker::with_min_value(0, 100, 50, 20);
    let mut flags = vec![false, false, false];
    take_one(&mut coffee_maker, &"foam".to_string(), 81, 0, &mut flags).expect("there is foam");
    assert_eq!(flags, vec![false, false, true]);
    let store = &coffee_maker.handler.containers;
    assert_eq!(store.get_quantity_of(&"foam".to_string()), Ok(19));
    assert_eq!(store.get_quantity_of(&"coffee".to_string()), Ok(100));
    assert_eq!(store.get_quantity_of(&"milk".to_string()), Ok(100));
}

#[test]
fn taking_what_is_not_there_raises_the_flag_and_fails() {
    let mut coffee_maker = CoffeeMaker::with_min_value(0, 100, 50, 20);
    let mut flags = vec![false, false, false];
    let result = take_one(&mut coffee_maker, &"hot_water".to_string(), 101, 0, &mut flags);
    assert_eq!(result, Err(Error::NotEnoughIngredient));
    assert_eq!(flags, vec![false, true, false]);
    let result = take_one(&mut coffee_maker, &"cocoa".to_string(), 101, 0, &mut flags);
    assert_eq!(result, Err(Error::NotEnoughIngredient));
    assert_eq!(flags, vec![false, true, false]);
    let store = &coffee_maker.handler.containers;
    assert_eq!(store.get_quantity_of(&"hot_water".to_string()), Ok(100));
    assert_eq!(store.get_quantity_of(&"cocoa".to_string()), Ok(100));
}

#[test]
fn an_order_that_is_served_is_counted_and_takes_all_four() {
    let mut coffee_maker = CoffeeMaker::with_min_value(0, 100, 50, 20);
    let mut orders_processed = 0;
    let mut flags = vec![false, false, false];
    make_order(Order::new(100, 81, 100, 80), &mut coffee_maker, 0, &mut orders_processed, &mut flags)
        .expect("there is enough of everything");
    assert_eq!(orders_processed, 1);
    assert_eq!(flags, vec![true, true, false]);
    let store = &coffee_maker.handler.containers;
    assert_eq!(store.get_quantity_of(&"coffee".to_string()), Ok(0));
    assert_eq!(store.get_quantity_of(&"hot_water".to_string()), Ok(19));
    assert_eq!(store.get_quantity_of(&"cocoa".to_string()), Ok(0));
    assert_eq!(store.get_quantity_of(&"foam".to_string()), Ok(20));
}

#[test]
fn an_attempt_tells_what_is_left() {
    let mut container = Container::new("coffee".to_string(), 30);
    assert_eq!(attempt(&mut container, 10, Some(0), 0), Attempt::Got { left: 20 });
    assert_eq!(container.quantity, 20);
    assert_eq!(attempt(&mut container, 21, None, 0), Attempt::Missing);
    assert_eq!(container.quantity, 20);
    assert_eq!(attempt(&mut container, 20, Some(1), 0), Attempt::Got { left: 0 });
    assert_eq!(container.quantity, 0);
}

#[test]
fn a_missing_ingredient_stands_for_not_enough_ingredient() {
    assert_eq!(result_of(Attempt::Got { left: 0 }), Ok(()));
    assert_eq!(result_of(Attempt::Got { left: 7 }), Ok(()));
    assert_eq!(result_of(Attempt::Missing), Err(Error::NotEnoughIngredient));
}
