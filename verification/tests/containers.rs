use tp1::containers::{is_an_ingredient, same_name, Containers, INITIAL_QUANTITY_WATER};
use tp1::errors::Error;

const NAMES: [&str; 7] = [
    "coffee",
    "hot_water",
    "cocoa",
    "foam",
    "grain_coffee",
    "milk",
    "cold_water",
];

#[test]
fn a_new_store_holds_the_same_of_everything_but_cold_water() {
    let containers = Containers::new(42);
    for name in NAMES {
        let expected = if name == "cold_water" { 1000 } else { 42 };
        assert_eq!(containers.get_quantity_of(&name.to_string()), Ok(expected));
    }
    assert_eq!(INITIAL_QUANTITY_WATER, 1000);
}

#[test]
fn a_default_store_holds_a_hundred() {
    let containers = Containers::default();
    assert_eq!(containers.get_quantity_of(&"coffee".to_string()), Ok(100));
    assert_eq!(containers.get_quantity_of(&"cold_water".to_string()), Ok(1000));
}

#[test]
fn the_store_finds_each_ingredient_at_its_place() {
    for (position, name) in NAMES.iter().enumerate() {
        assert_eq!(Containers::find(name), position);
    }
}

#[test]
fn taking_an_ingredient_takes_exactly_that_much_of_it() {
    for name in NAMES {
        let mut containers = Containers::new(100);
        let before = containers.get_quantity_of(&name.to_string()).unwrap();
        containers
            .get_ingredient(&name.to_string(), 30, Some(1), 0)
            .expect("there is enough");
        for other in NAMES {
            let expected = if other == name {
                before - 30
            } else if other == "cold_water" {
                1000
            } else {
                100
            };
            assert_eq!(containers.get_quantity_of(&other.to_string()), Ok(expected));
        }
    }
}

#[test]
fn taking_all_there_is_succeeds_and_leaves_nothing() {
    let mut containers = Containers::new(100);
    assert_eq!(containers.get_ingredient(&"cocoa".to_string(), 100, Some(0), 0), Ok(()));
    assert_eq!(containers.get_quantity_of(&"cocoa".to_string()), Ok(0));
    assert_eq!(containers.get_ingredient(&"cocoa".to_string(), 0, Some(0), 0), Ok(()));
    assert_eq!(
        containers.get_ingredient(&"cocoa".to_string(), 1, Some(0), 0),
        Err(Error::NotEnoughIngredient)
    );
}

#[test]
fn taking_more_than_there_is_fails_and_takes_nothing() {
    let mut containers = Containers::new(100);
    let result = containers.get_ingredient(&"foam".to_string(), 101, Some(1), 0);
    assert_eq!(result, Err(Error::NotEnoughIngredient));
    for name in NAMES {
        let expected = if name == "cold_water" { 1000 } else { 100 };
        assert_eq!(containers.get_quantity_of(&name.to_string()), Ok(expected));
    }
}

#[test]
fn replenishing_an_ingredient_adds_exactly_that_much_to_it() {
    let mut containers = Containers::new(100);
    containers
        .replenish_ingredient(&"hot_water".to_string(), 25, 0)
        .expect("a replenish does not fail");
    for name in NAMES {
        let expected = match name {
            "hot_water" => 125,
            "cold_water" => 1000,
            _ => 100,
        };
        assert_eq!(containers.get_quantity_of(&name.to_string()), Ok(expected));
    }
}

#[test]
fn what_is_taken_and_added_adds_up() {
    let mut containers = Containers::new(20);
    let coffee = "coffee".to_string();
    let mut taken = 0;
    let mut added = 0;
    for value in [15u32, 10, 5, 40, 1] {
        if containers.get_ingredient(&coffee, value, None, 0).is_ok() {
            taken += value;
        }
        containers
            .replenish_ingredient(&coffee, 3, 0)
            .expect("a replenish does not fail");
        added += 3;
    }
    assert_eq!(taken, 21);
    assert_eq!(containers.get_quantity_of(&coffee), Ok(20 + added - taken));
}

#[test]
fn a_copy_of_a_store_is_a_store_of_its_own() {
    let containers = Containers::new(10);
    let mut second = containers.copy();
    second
        .get_ingredient(&"milk".to_string(), 4, None, 0)
        .expect("there is milk");
    assert_eq!(containers.get_quantity_of(&"milk".to_string()), Ok(10));
    assert_eq!(second.get_quantity_of(&"milk".to_string()), Ok(6));
}

#[test]
fn names_are_told_apart() {
    assert!(same_name("foam", "foam"));
    assert!(!same_name("foam", "milk"));
    assert!(!same_name("coffee", "grain_coffee"));
    assert!(!same_name("", "milk"));
}

#[test]
fn the_store_knows_its_seven_ingredients() {
    for name in NAMES {
        assert!(is_an_ingredient(name));
    }
    assert!(!is_an_ingredient("water"));
    assert!(!is_an_ingredient("tea"));
    assert!(!is_an_ingredient(""));
}

#[test]
fn every_container_bears_the_name_it_is_found_by() {
    let mut containers = Containers::new(8);
    containers
        .get_ingredient(&"foam".to_string(), 3, None, 0)
        .expect("there is foam");
    for name in NAMES {
        let container = containers.container(name);
        assert_eq!(container.name, name);
        assert_eq!(Ok(container.quantity), containers.get_quantity_of(&name.to_string()));
    }
    assert_eq!(containers.container("foam").quantity, 5);
}
