//! The stocker: a dispenser's own way to fill up the store before it
//! serves an order.
//!
//! Like the ingredient handler, the stocker takes the raw material
//! first and fills up the ingredient only if it got it. Unlike the
//! handler, it works with a fixed minimum and a fixed quantity, and it
//! heats water without taking any cold water for it.

use vstd::prelude::*;
use crate::containers::is_ingredient;
use crate::containers::lemma_names_differ;
use crate::containers::same_name;
use crate::containers::Containers;
use crate::containers::COFFEE;
use crate::containers::FOAM;
use crate::containers::GRAIN_COFFEE;
use crate::containers::HOT_WATER;
use crate::containers::MILK;
use crate::errors::Error;
use crate::ingredient_handler::is_replenishable;

verus! {

/// The stocker fills up an ingredient of which the store holds less than
/// this.
pub const MIN_VALUE: u32 = 20;

/// What the stocker adds at a time.
pub const VALUE: u32 = 50;

/// The raw material that the stocker takes for `name`, if there is one:
/// hot water has none.
pub open spec fn charged_for(name: Seq<char>) -> Option<Seq<char>> {
    if name == COFFEE@ {
        Some(GRAIN_COFFEE@)
    } else if name == FOAM@ {
        Some(MILK@)
    } else {
        None
    }
}

/// Whether the stocker has to fill up `name` and cannot, because the
/// store holds too little of its raw material.
pub open spec fn is_overdrawn(levels: Map<Seq<char>, nat>, name: Seq<char>) -> bool {
    levels[name] < MIN_VALUE && match charged_for(name) {
        Some(resource) => levels[resource] < VALUE,
        None => false,
    }
}

/// The store after the stocker has looked after `name`. Where the store
/// holds `MIN_VALUE` of it or more, or too little of its raw material,
/// nothing has changed. Everywhere else `VALUE` has been added to it,
/// and `VALUE` has been taken from its raw material, if it has one.
pub open spec fn stocked(levels: Map<Seq<char>, nat>, name: Seq<char>) -> Map<Seq<char>, nat> {
    if levels[name] < MIN_VALUE && !is_overdrawn(levels, name) {
        let filled = levels.insert(name, levels[name] + VALUE as nat);
        match charged_for(name) {
            Some(resource) => filled.insert(resource, (levels[resource] - VALUE) as nat),
            None => filled,
        }
    } else {
        levels
    }
}

/// The store after the stocker has gone through coffee, foam and hot
/// water, in this order, and stopped at the first that it had to fill up
/// and could not.
pub open spec fn all_stocked(levels: Map<Seq<char>, nat>) -> Map<Seq<char>, nat> {
    let first = stocked(levels, COFFEE@);
    if is_overdrawn(levels, COFFEE@) {
        first
    } else {
        let second = stocked(first, FOAM@);
        if is_overdrawn(first, FOAM@) {
            second
        } else {
            stocked(second, HOT_WATER@)
        }
    }
}

/// The stocker of one coffee machine, with the machine's store.
#[derive(Debug)]
pub struct Stocker {
    pub coffee_maker_id: u32,
    pub containers: Containers,
}

impl Stocker {
    /// The stocker of machine `id`, which works on `containers_list`.
    pub fn new(containers_list: Containers, id: u32) -> (stocker: Stocker)
        ensures
            stocker.coffee_maker_id == id,
            stocker.containers@ == containers_list@,
    {
        Stocker { coffee_maker_id: id, containers: containers_list }
    }

    /// Whether the store holds less of `ingredient` than `MIN_VALUE`.
    pub fn has_to_replenish(&self, ingredient: &String, dispenser_id: u32) -> (result: Result<
        bool,
        Error,
    >)
        requires
            is_ingredient(ingredient@),
        ensures
            result == Ok::<bool, Error>(self.containers@[ingredient@] < MIN_VALUE),
    {
        match self.containers.get_quantity_of(ingredient) {
            Ok(quantity) => Ok(quantity < MIN_VALUE),
            Err(error) => Err(error),
        }
    }

    /// Looks after `ingredient`: see `stocked`. The answer is
    /// `NotEnoughIngredient` where the ingredient had to be filled up and
    /// the store holds too little of its raw material; nothing has changed
    /// then.
    pub fn replenish(&mut self, ingredient: String, dispenser_id: u32) -> (result: Result<(), Error>)
        requires
            is_replenishable(ingredient@),
        ensures
            final(self).containers@ == stocked(old(self).containers@, ingredient@),
            final(self).coffee_maker_id == old(self).coffee_maker_id,
            result is Err <==> is_overdrawn(old(self).containers@, ingredient@),
            result is Err ==> result == Err::<(), Error>(Error::NotEnoughIngredient),
    {
        proof {
            lemma_names_differ();
        }
        match self.has_to_replenish(&ingredient, dispenser_id) {
            Ok(true) => {
                if !same_name(&ingredient, HOT_WATER) {
                    let resource = if same_name(&ingredient, COFFEE) {
                        GRAIN_COFFEE.to_owned()
                    } else {
                        MILK.to_owned()
                    };
                    match self.containers.get_ingredient(
                        &resource,
                        VALUE,
                        Some(dispenser_id),
                        self.coffee_maker_id,
                    ) {
                        Ok(()) => {},
                        Err(error) => {
                            return Err(error);
                        },
                    }
                }
                self.containers.replenish_ingredient(&ingredient, VALUE, self.coffee_maker_id)
            },
            _ => Ok(()),
        }
    }

    /// Looks after coffee, foam and hot water, in this order, and stops at
    /// the first that it had to fill up and could not.
    pub fn replenish_ingredients(&mut self, dispenser_id: u32) -> (result: Result<(), Error>)
        ensures
            final(self).containers@ == all_stocked(old(self).containers@),
            final(self).coffee_maker_id == old(self).coffee_maker_id,
            result is Err <==> {
                ||| is_overdrawn(old(self).containers@, COFFEE@)
                ||| is_overdrawn(stocked(old(self).containers@, COFFEE@), FOAM@)
            },
            result is Err ==> result == Err::<(), Error>(Error::NotEnoughIngredient),
    {
        proof {
            lemma_names_differ();
        }
        match self.replenish(COFFEE.to_owned(), dispenser_id) {
            Ok(()) => {},
            Err(error) => {
                return Err(error);
            },
        }
        match self.replenish(FOAM.to_owned(), dispenser_id) {
            Ok(()) => {},
            Err(error) => {
                return Err(error);
            },
        }
        self.replenish(HOT_WATER.to_owned(), dispenser_id)
    }
}

impl Stocker {
    /// A copy of the stocker, with a copy of the store.
    pub fn copy(&self) -> (stocker: Stocker)
        ensures
            stocker.coffee_maker_id == self.coffee_maker_id,
            stocker.containers@ == self.containers@,
    {
        Stocker { coffee_maker_id: self.coffee_maker_id, containers: self.containers.copy() }
    }
}

} // verus!
