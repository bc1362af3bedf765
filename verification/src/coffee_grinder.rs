//! The coffee grinder: it turns grain coffee into coffee.

use vstd::prelude::*;
use crate::containers::lemma_names_differ;
use crate::containers::Containers;
use crate::containers::COFFEE;
use crate::containers::GRAIN_COFFEE;
use crate::errors::Error;
use crate::ingredient_handler::lacks_resource;
use crate::ingredient_handler::replenished;

verus! {

/// The grinder works while the store holds less coffee than this.
pub const MIN_COFFEE: u32 = 20;

/// What the grinder grinds at a time.
pub const GRIND_VALUE: u32 = 50;

/// The grinder of one coffee machine, with the machine's store.
#[derive(Debug)]
pub struct CoffeeGrinder {
    pub coffee_maker_id: u32,
    pub containers: Containers,
}

impl CoffeeGrinder {
    /// The grinder of machine `id`, which works on `containers_list`.
    pub fn new(containers_list: Containers, id: u32) -> (grinder: CoffeeGrinder)
        ensures
            grinder.coffee_maker_id == id,
            grinder.containers@ == containers_list@,
    {
        CoffeeGrinder { coffee_maker_id: id, containers: containers_list }
    }

    /// Whether the store holds less coffee than `MIN_COFFEE`.
    pub fn has_to_grind_coffee(&self) -> (result: Result<bool, Error>)
        ensures
            result == Ok::<bool, Error>(self.containers@[COFFEE@] < MIN_COFFEE),
    {
        match self.containers.get_quantity_of(&COFFEE.to_owned()) {
            Ok(quantity) => Ok(quantity < MIN_COFFEE),
            Err(error) => Err(error),
        }
    }

    /// Grinds if the store holds less coffee than `MIN_COFFEE`:
    /// `GRIND_VALUE` goes from the grain coffee to the coffee. Where the
    /// store does not hold that much grain coffee, nothing changes and the
    /// answer is `NotEnoughIngredient`.
    pub fn grind_coffee(&mut self) -> (result: Result<(), Error>)
        ensures
            final(self).containers@ == replenished(
                old(self).containers@,
                COFFEE@,
                GRIND_VALUE as nat,
                MIN_COFFEE as nat,
            ),
            final(self).coffee_maker_id == old(self).coffee_maker_id,
            result is Err <==> lacks_resource(
                old(self).containers@,
                COFFEE@,
                GRIND_VALUE as nat,
                MIN_COFFEE as nat,
            ),
            result is Err ==> result == Err::<(), Error>(Error::NotEnoughIngredient),
    {
        proof {
            lemma_names_differ();
        }
        match self.has_to_grind_coffee() {
            Ok(true) => {
                match self.containers.get_ingredient(
                    &GRAIN_COFFEE.to_owned(),
                    GRIND_VALUE,
                    Some(1),
                    self.coffee_maker_id,
                ) {
                    Ok(()) => self.containers.replenish_ingredient(
                        &COFFEE.to_owned(),
                        GRIND_VALUE,
                        self.coffee_maker_id,
                    ),
                    Err(error) => Err(error),
                }
            },
            _ => Ok(()),
        }
    }
}

impl CoffeeGrinder {
    /// A copy of the grinder, with a copy of the store.
    pub fn copy(&self) -> (grinder: CoffeeGrinder)
        ensures
            grinder.coffee_maker_id == self.coffee_maker_id,
            grinder.containers@ == self.containers@,
    {
        CoffeeGrinder { coffee_maker_id: self.coffee_maker_id, containers: self.containers.copy() }
    }
}

} // verus!
