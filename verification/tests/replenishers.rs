use tp1::coffee_grinder::{CoffeeGrinder, GRIND_VALUE, MIN_COFFEE};
use tp1::containers::Containers;
use tp1::errors::Error;
use tp1::ingredient_handler::{
    can_refill, flag_of, has_to_wait, is_short, notify_replenished, resource, IHandler,
};
use tp1::stocker::{Stocker, MIN_VALUE, VALUE};

fn level(containers: &Containers, ingredient: &str) -> u32 {
    containers
        .get_quantity_of(&ingredient.to_string())
        .expect("the store is at hand")
}

#[test]
fn the_handler_knows_the_flag_of_each_ingredient() {
    let handler = IHandler::new(Containers::new(0), 0, 10);
    assert_eq!(handler.get_index("coffee".to_string()), 0);
    assert_eq!(handler.get_index("hot_water".to_string()), 1);
    assert_eq!(handler.get_index("foam".to_string()), 2);
}

#[test]
fn the_handler_leaves_alone_what_is_not_short() {
    let mut handler = IHandler::with_min_value(Containers::new(20), 0, 10, 20);
    handler
        .replenish(&"coffee".to_string())
        .expect("nothing to do");
    assert_eq!(level(&handler.containers, "coffee"), 20);
    assert_eq!(level(&handler.containers, "grain_coffee"), 20);
    assert_eq!(handler.has_to_replenish(&"coffee".to_string()), Ok(false));
}

#[test]
fn the_handler_refills_what_is_below_the_minimum() {
    let mut handler = IHandler::with_min_value(Containers::new(19), 0, 10, 20);
    assert_eq!(handler.has_to_replenish(&"foam".to_string()), Ok(true));
    handler.replenish(&"foam".to_string()).expect("there is milk");
    assert_eq!(level(&handler.containers, "foam"), 29);
    assert_eq!(level(&handler.containers, "milk"), 9);
    assert_eq!(level(&handler.containers, "coffee"), 19);
    handler
        .replenish(&"hot_water".to_string())
        .expect("there is cold water");
    assert_eq!(level(&handler.containers, "hot_water"), 29);
    assert_eq!(level(&handler.containers, "cold_water"), 990);
}

#[test]
fn the_handler_does_not_refill_without_raw_material() {
    let mut handler = IHandler::with_min_value(Containers::new(9), 0, 10, 20);
    let result = handler.replenish(&"coffee".to_string());
    assert_eq!(result, Err(Error::NotEnoughIngredient));
    assert_eq!(level(&handler.containers, "coffee"), 9);
    assert_eq!(level(&handler.containers, "grain_coffee"), 9);
}

#[test]
fn the_handler_takes_from_the_raw_material_alone() {
    let mut handler = IHandler::new(Containers::new(30), 0, 10);
    handler
        .get_ingredient(&"foam".to_string())
        .expect("there is milk");
    assert_eq!(level(&handler.containers, "milk"), 20);
    assert_eq!(level(&handler.containers, "foam"), 30);
    let mut empty = IHandler::new(Containers::new(5), 0, 10);
    assert_eq!(
        empty.get_ingredient(&"coffee".to_string()),
        Err(Error::NotEnoughIngredient)
    );
    assert_eq!(level(&empty.containers, "grain_coffee"), 5);
}

#[test]
fn the_handler_adds_to_the_ingredient_alone() {
    let mut handler = IHandler::with_min_value(Containers::new(5), 0, 10, 6);
    handler
        .replenish_ingredient(&"coffee".to_string())
        .expect("a replenish does not fail");
    assert_eq!(level(&handler.containers, "coffee"), 15);
    assert_eq!(level(&handler.containers, "grain_coffee"), 5);
    handler
        .replenish_ingredient(&"coffee".to_string())
        .expect("a replenish does not fail");
    assert_eq!(level(&handler.containers, "coffee"), 15);
}

#[test]
fn a_turn_of_the_handler_lowers_the_flag() {
    let mut handler = IHandler::with_min_value(Containers::new(10), 0, 5, 20);
    let mut flags = vec![true, true, true];
    let mut awake = vec![false, false, false];
    handler
        .do_replenish(&"foam".to_string(), &mut flags, &mut awake, 2)
        .expect("a turn does not fail");
    assert_eq!(flags, vec![true, true, false]);
    assert_eq!(awake, vec![false, false, true]);
    assert_eq!(level(&handler.containers, "foam"), 15);
    assert_eq!(level(&handler.containers, "milk"), 5);
    handler
        .do_replenish(&"foam".to_string(), &mut flags, &mut awake, 2)
        .expect("a turn does not fail");
    assert_eq!(flags, vec![true, true, false]);
    assert_eq!(level(&handler.containers, "foam"), 15);
    assert_eq!(level(&handler.containers, "milk"), 5);
}

#[test]
fn a_turn_of_the_handler_lowers_the_flag_when_the_refill_fails() {
    let mut handler = IHandler::with_min_value(Containers::new(10), 0, 50, 20);
    let mut flags = vec![true, false, false];
    let mut awake = vec![false, false, false];
    let result = handler.do_replenish(&"coffee".to_string(), &mut flags, &mut awake, 0);
    assert_eq!(result, Ok(()));
    assert_eq!(flags, vec![false, false, false]);
    assert_eq!(awake, vec![true, false, false]);
    assert_eq!(level(&handler.containers, "coffee"), 10);
    assert_eq!(level(&handler.containers, "grain_coffee"), 10);
}

#[test]
fn a_copy_of_a_handler_has_a_store_of_its_own() {
    let handler = IHandler::with_min_value(Containers::new(10), 4, 5, 20);
    assert_eq!(handler.coffee_maker_id, 4);
    let mut second = handler.copy();
    second.replenish(&"coffee".to_string()).expect("there is grain");
    assert_eq!(second.coffee_maker_id, 4);
    assert_eq!(second.replenish_value, 5);
    assert_eq!(second.min_value, 20);
    assert_eq!(level(&handler.containers, "coffee"), 10);
    assert_eq!(level(&second.containers, "coffee"), 15);
}

#[test]
fn the_grinder_grinds_when_coffee_is_short() {
    assert_eq!(MIN_COFFEE, 20);
    assert_eq!(GRIND_VALUE, 50);
    let mut containers = Containers::new(100);
    containers
        .get_ingredient(&"coffee".to_string(), 81, None, 0)
        .expect("there is coffee");
    let mut grinder = CoffeeGrinder::new(containers, 2);
    assert_eq!(grinder.coffee_maker_id, 2);
    assert_eq!(grinder.has_to_grind_coffee(), Ok(true));
    grinder.grind_coffee().expect("there is grain");
    assert_eq!(level(&grinder.containers, "coffee"), 69);
    assert_eq!(level(&grinder.containers, "grain_coffee"), 50);
    assert_eq!(grinder.has_to_grind_coffee(), Ok(false));
    grinder.grind_coffee().expect("nothing to do");
    assert_eq!(level(&grinder.containers, "coffee"), 69);
    assert_eq!(level(&grinder.containers, "grain_coffee"), 50);
}

#[test]
fn the_grinder_does_not_grind_without_grain() {
    let mut grinder = CoffeeGrinder::new(Containers::new(19), 0);
    assert_eq!(grinder.grind_coffee(), Err(Error::NotEnoughIngredient));
    assert_eq!(level(&grinder.containers, "coffee"), 19);
    assert_eq!(level(&grinder.containers, "grain_coffee"), 19);
    let second = grinder.copy();
    assert_eq!(level(&second.containers, "coffee"), 19);
}

#[test]
fn the_stocker_fills_up_what_is_short() {
    assert_eq!(MIN_VALUE, 20);
    assert_eq!(VALUE, 50);
    let mut containers = Containers::new(100);
    containers
        .get_ingredient(&"coffee".to_string(), 90, None, 0)
        .expect("there is coffee");
    containers
        .get_ingredient(&"hot_water".to_string(), 95, None, 0)
        .expect("there is water");
    let mut stocker = Stocker::new(containers, 1);
    assert_eq!(stocker.has_to_replenish(&"coffee".to_string(), 0), Ok(true));
    assert_eq!(stocker.has_to_replenish(&"foam".to_string(), 0), Ok(false));
    stocker.replenish_ingredients(0).expect("there are raw materials");
    assert_eq!(level(&stocker.containers, "coffee"), 60);
    assert_eq!(level(&stocker.containers, "grain_coffee"), 50);
    assert_eq!(level(&stocker.containers, "foam"), 100);
    assert_eq!(level(&stocker.containers, "milk"), 100);
    assert_eq!(level(&stocker.containers, "hot_water"), 55);
    assert_eq!(level(&stocker.containers, "cold_water"), 1000);
}

#[test]
fn the_stocker_does_not_fill_up_without_raw_material() {
    let mut stocker = Stocker::new(Containers::new(10), 1);
    let result = stocker.replenish("foam".to_string(), 0);
    assert_eq!(result, Err(Error::NotEnoughIngredient));
    assert_eq!(level(&stocker.containers, "foam"), 10);
    assert_eq!(level(&stocker.containers, "milk"), 10);
    let second = stocker.copy();
    assert_eq!(second.coffee_maker_id, 1);
    assert_eq!(level(&second.containers, "foam"), 10);
}

#[test]
fn the_stocker_heats_water_without_cold_water() {
    let mut stocker = Stocker::new(Containers::new(10), 1);
    stocker
        .replenish("hot_water".to_string(), 0)
        .expect("hot water needs no raw material");
    assert_eq!(level(&stocker.containers, "hot_water"), 60);
    assert_eq!(level(&stocker.containers, "cold_water"), 1000);
}

#[test]
fn the_stocker_takes_the_raw_material_with_the_refill() {
    let mut stocker = Stocker::new(Containers::new(19), 1);
    stocker
        .containers
        .replenish_ingredient(&"milk".to_string(), 31, 0)
        .expect("a replenish does not fail");
    stocker
        .replenish("foam".to_string(), 0)
        .expect("there is milk");
    assert_eq!(level(&stocker.containers, "foam"), 69);
    assert_eq!(level(&stocker.containers, "milk"), 0);
}

#[test]
fn the_stocker_stops_at_the_first_raw_material_that_is_short() {
    let mut stocker = Stocker::new(Containers::new(10), 1);
    let result = stocker.replenish_ingredients(0);
    assert_eq!(result, Err(Error::NotEnoughIngredient));
    assert_eq!(level(&stocker.containers, "coffee"), 10);
    assert_eq!(level(&stocker.containers, "grain_coffee"), 10);
    assert_eq!(level(&stocker.containers, "foam"), 10);
    assert_eq!(level(&stocker.containers, "hot_water"), 10);
}

#[test]
fn each_ingredient_has_its_raw_material_and_its_flag() {
    assert_eq!(resource("coffee"), "grain_coffee");
    assert_eq!(resource("foam"), "milk");
    assert_eq!(resource("hot_water"), "cold_water");
    assert_eq!(flag_of("coffee"), 0);
    assert_eq!(flag_of("hot_water"), 1);
    assert_eq!(flag_of("foam"), 2);
}

#[test]
fn a_quantity_below_the_minimum_is_short() {
    assert!(is_short(19, 20));
    assert!(!is_short(20, 20));
    assert!(is_short(0, 1));
}

#[test]
fn an_empty_container_is_short_whatever_the_minimum() {
    assert!(is_short(0, 0));
    assert!(!is_short(1, 0));
    assert!(!is_short(1, 1));
    let handler = IHandler::new(Containers::new(0), 0, 10);
    assert_eq!(handler.min_value, 0);
    assert_eq!(handler.has_to_replenish(&"coffee".to_string()), Ok(true));
    let handler = IHandler::new(Containers::new(1), 0, 10);
    assert_eq!(handler.has_to_replenish(&"coffee".to_string()), Ok(false));
}

#[test]
fn a_refill_must_fit_on_top_of_the_minimum() {
    assert!(can_refill(50, 20));
    assert!(can_refill(u32::MAX, 0));
    assert!(can_refill(u32::MAX, 1));
    assert!(!can_refill(u32::MAX, 2));
    assert!(can_refill(0, u32::MAX));
    assert!(can_refill(1, u32::MAX));
    assert!(!can_refill(2, u32::MAX));
}

#[test]
fn a_handler_sleeps_while_its_flag_is_down() {
    let mut flags = vec![false, true, false];
    assert!(has_to_wait(&flags, 0));
    assert!(!has_to_wait(&flags, 1));
    assert!(has_to_wait(&flags, 2));
    notify_replenished(&mut flags, 1);
    assert_eq!(flags, vec![false, false, false]);
    assert!(has_to_wait(&flags, 1));
    notify_replenished(&mut flags, 1);
    assert_eq!(flags, vec![false, false, false]);
}
