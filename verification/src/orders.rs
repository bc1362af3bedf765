//! One order: how much of each ingredient a beverage takes.

use vstd::prelude::*;

verus! {

/// What one beverage takes of each of the four ingredients.
#[derive(Debug, Clone, Copy, PartialEq, Eq, Structural)]
pub struct Order {
    pub coffee: u32,
    pub water: u32,
    pub cocoa: u32,
    pub foam: u32,
}

impl Order {
    /// The order for a beverage that takes these quantities.
    pub fn new(coffee_value: u32, water_value: u32, cocoa_value: u32, foam_value: u32) -> (order:
        Order)
        ensures
            order.coffee == coffee_value,
            order.water == water_value,
            order.cocoa == cocoa_value,
            order.foam == foam_value,
    {
        Order { coffee: coffee_value, water: water_value, cocoa: cocoa_value, foam: foam_value }
    }
}

} // verus!
