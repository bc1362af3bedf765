//! One container: a named quantity of an ingredient.

use vstd::prelude::*;
use crate::errors::Error;

verus! {

/// A named quantity of one ingredient.
#[derive(Debug)]
pub struct Container {
    pub name: String,
    pub quantity: u32,
}

/// What is left of `quantity` once `value` has been asked of it: the
/// difference where there is enough, and all of it where there is not.
pub open spec fn left_after(quantity: nat, value: nat) -> nat {
    if quantity >= value {
        (quantity - value) as nat
    } else {
        quantity
    }
}

/// One call on a container: a request to take a quantity out of it, or
/// to add a quantity to it.
pub enum Movement {
    Dispense(u32),
    Replenish(u32),
}

/// What a container that held `quantity` holds after `movement`.
pub open spec fn moved(quantity: nat, movement: Movement) -> nat {
    match movement {
        Movement::Dispense(value) => left_after(quantity, value as nat),
        Movement::Replenish(value) => quantity + value as nat,
    }
}

/// What a container that held `quantity` holds after the calls of
/// `movements`, made one after the other.
pub open spec fn quantity_after(quantity: nat, movements: Seq<Movement>) -> nat
    decreases movements.len(),
{
    if movements.len() == 0 {
        quantity
    } else {
        quantity_after(moved(quantity, movements[0]), movements.drop_first())
    }
}

/// The sum of what the calls of `movements` add.
pub open spec fn total_replenished(movements: Seq<Movement>) -> nat
    decreases movements.len(),
{
    if movements.len() == 0 {
        0
    } else {
        total_replenished(movements.drop_first()) + match movements[0] {
            Movement::Dispense(_) => 0nat,
            Movement::Replenish(value) => value as nat,
        }
    }
}

/// The sum of what the calls of `movements` take out of a container that
/// held `quantity` at the start: a request for more than the container
/// holds when it is made takes nothing.
pub open spec fn total_dispensed(quantity: nat, movements: Seq<Movement>) -> nat
    decreases movements.len(),
{
    if movements.len() == 0 {
        0
    } else {
        total_dispensed(moved(quantity, movements[0]), movements.drop_first()) + match movements[0] {
            Movement::Dispense(value) => if quantity >= value {
                value as nat
            } else {
                0nat
            },
            Movement::Replenish(_) => 0nat,
        }
    }
}

/// Whatever calls are made on one container and in whatever order they
/// reach it, what it holds in the end is what it held at the start, plus
/// all that was added, minus all that was taken out.
pub proof fn lemma_quantity_is_balance(quantity: nat, movements: Seq<Movement>)
    ensures
        quantity_after(quantity, movements) + total_dispensed(quantity, movements) == quantity
            + total_replenished(movements),
    decreases movements.len(),
{
    if movements.len() > 0 {
        lemma_quantity_is_balance(moved(quantity, movements[0]), movements.drop_first());
    }
}

impl Container {
    /// A container of `ingredient` that holds `value`.
    pub fn new(ingredient: String, value: u32) -> (container: Container)
        ensures
            container.name@ == ingredient@,
            container.quantity == value,
    {
        Container { name: ingredient, quantity: value }
    }

    /// Takes `value` out of the container if it holds that much, and takes
    /// nothing otherwise. `dispenser_id` and `coffee_maker_id` say who asks;
    /// the outcome does not depend on them.
    pub fn dispense(
        &mut self,
        value: u32,
        dispenser_id: Option<u32>,
        coffee_maker_id: u32,
    ) -> (result: Result<(), Error>)
        ensures
            final(self).name == old(self).name,
            final(self).quantity == moved(old(self).quantity as nat, Movement::Dispense(value)),
            result is Ok <==> old(self).quantity >= value,
            result is Err ==> result == Err::<(), Error>(Error::NotEnoughIngredient),
        no_unwind
    {
        if self.quantity >= value {
            self.quantity -= value;
            Ok(())
        } else {
            Err(Error::NotEnoughIngredient)
        }
    }

    /// Adds `value` to the container. `coffee_maker_id` says whose
    /// container it is; the outcome does not depend on it.
    pub fn replenish(&mut self, value: u32, coffee_maker_id: u32) -> (result: Result<(), Error>)
        requires
            old(self).quantity + value <= u32::MAX,
        ensures
            final(self).name == old(self).name,
            final(self).quantity == moved(old(self).quantity as nat, Movement::Replenish(value)),
            result is Ok,
        no_unwind
    {
        self.quantity += value;
        Ok(())
    }
}

impl Clone for Container {
    /// A second container with the same name and the same quantity.
    fn clone(&self) -> (container: Container)
        ensures
            container == *self,
    {
        Container { name: self.name.clone(), quantity: self.quantity }
    }
}

impl Default for Container {
    /// An empty container without a name.
    fn default() -> (container: Container)
        ensures
            container.name@ == Seq::<char>::empty(),
            container.quantity == 0,
    {
        Container::new(String::new(), 0)
    }
}

} // verus!
