use tp1::coffee_maker::CoffeeMaker;
use tp1::containers::Containers;
use tp1::orders::Order;
use tp1::stats_presentator::{
    get_info_of, get_ingredients_consumed, get_orders_processed, get_quantity_of,
};

#[test]
fn the_orders_processed_are_those_no_longer_pending() {
    assert_eq!(get_orders_processed(10, 10), 0);
    assert_eq!(get_orders_processed(10, 4), 6);
    assert_eq!(get_orders_processed(10, 0), 10);
}

#[test]
fn cold_water_is_not_watched() {
    let mut containers = Containers::new(40);
    containers
        .get_ingredient(&"cocoa".to_string(), 15, None, 0)
        .expect("there is cocoa");
    let quantities = get_quantity_of(&containers);
    assert_eq!(quantities.get("coffee"), 40);
    assert_eq!(quantities.get("hot_water"), 40);
    assert_eq!(quantities.get("cocoa"), 25);
    assert_eq!(quantities.get("foam"), 40);
    assert_eq!(quantities.get("grain_coffee"), 40);
    assert_eq!(quantities.get("milk"), 40);
    assert_eq!(quantities.get("cold_water"), 0);
}

#[test]
fn what_has_left_each_container_is_counted_by_itself() {
    let mut coffee_makers = vec![
        CoffeeMaker::with_min_value(0, 100, 50, 20),
        CoffeeMaker::with_min_value(1, 100, 50, 20),
    ];
    let mut orders = Vec::new();
    for _ in 0..10 {
        orders.push(Order::new(10, 10, 5, 5));
    }
    let total = orders.len() as u32;
    let mut orders_processed = 0;
    coffee_makers[1]
        .start(&mut orders, &mut orders_processed)
        .expect("the machine runs");
    assert_eq!(get_orders_processed(total, orders.len() as u32), 10);

    let info = get_info_of(coffee_makers);
    assert_eq!(info.len(), 2);
    assert_eq!(info[0].get("coffee"), 100);
    assert_eq!(info[1].get("coffee"), 50);
    assert_eq!(info[1].get("grain_coffee"), 50);
    assert_eq!(info[1].get("cold_water"), 0);

    let consumed = get_ingredients_consumed(info, 200);
    assert_eq!(consumed.get("coffee"), 50);
    assert_eq!(consumed.get("grain_coffee"), 50);
    assert_eq!(consumed.get("hot_water"), 50);
    assert_eq!(consumed.get("cocoa"), 50);
    assert_eq!(consumed.get("foam"), 50);
    assert_eq!(consumed.get("milk"), 0);
    assert_eq!(consumed.get("cold_water"), 0);
}
