//! The ingredient handler: it refills what runs short from raw materials.
//!
//! Coffee is ground from grain coffee, foam is whipped from milk and hot
//! water is heated from cold water. Each of the three has a shortage flag.
//! The handler refills an ingredient by a fixed quantity, and only when
//! a refill is due: nothing is left of the ingredient, or less than a
//! minimum.

use vstd::prelude::*;
use crate::container::left_after;
use crate::containers::is_ingredient;
use crate::containers::lemma_names_differ;
use crate::containers::same_name;
use crate::containers::Containers;
use crate::containers::COLD_WATER;
use crate::containers::GRAIN_COFFEE;
use crate::containers::MILK;
use crate::errors::Error;
use crate::orders_handler::IDX_COFFEE;
use crate::orders_handler::IDX_FOAM;
use crate::orders_handler::IDX_WATER;

pub use crate::containers::COFFEE;
pub use crate::containers::FOAM;
pub use crate::containers::HOT_WATER;

verus! {

/// The ingredients that the handler refills.
pub open spec fn is_replenishable(name: Seq<char>) -> bool {
    name == COFFEE@ || name == HOT_WATER@ || name == FOAM@
}

/// The raw material that `name` is made from.
pub open spec fn resource_of(name: Seq<char>) -> Seq<char> {
    if name == COFFEE@ {
        GRAIN_COFFEE@
    } else if name == FOAM@ {
        MILK@
    } else {
        COLD_WATER@
    }
}

/// The shortage flag of `name`.
pub open spec fn index_of(name: Seq<char>) -> u32 {
    if name == COFFEE@ {
        IDX_COFFEE
    } else if name == HOT_WATER@ {
        IDX_WATER
    } else {
        IDX_FOAM
    }
}

/// Whether a refill is due for an ingredient of which the store holds
/// `quantity`: it is once nothing is left, and as long as less than `min`
/// is left.
pub open spec fn due(quantity: nat, min: nat) -> bool {
    quantity == 0 || quantity < min
}

/// Whether a refill of `name` is due and cannot be made, because the
/// store holds less than `value` of its raw material.
pub open spec fn lacks_resource(levels: Map<Seq<char>, nat>, name: Seq<char>, value: nat, min: nat) -> bool {
    due(levels[name], min) && levels[resource_of(name)] < value
}

/// The store after the handler has looked after `name`. Where a refill
/// is due and the store holds at least `value` of the raw material,
/// `value` has gone from the raw material to the ingredient. Everywhere
/// else nothing has changed.
pub open spec fn replenished(levels: Map<Seq<char>, nat>, name: Seq<char>, value: nat, min: nat) -> Map<
    Seq<char>,
    nat,
> {
    if due(levels[name], min) && levels[resource_of(name)] >= value {
        levels.insert(
            resource_of(name),
            (levels[resource_of(name)] - value) as nat,
        ).insert(name, levels[name] + value)
    } else {
        levels
    }
}

/// A shortage is made good: where a refill is due for an ingredient that
/// can be replenished, and the store holds at least `value` of its raw
/// material, the handler's turn takes `value` from the raw material and
/// leaves the store with that much more of the ingredient than it had.
/// Nothing else in the store changes.
pub proof fn lemma_shortage_is_refilled(levels: Map<Seq<char>, nat>, name: Seq<char>, value: nat, min: nat)
    requires
        is_replenishable(name),
        due(levels[name], min),
        levels[resource_of(name)] >= value,
    ensures
        ({
            let after = replenished(levels, name, value, min);
            &&& after[name] == levels[name] + value
            &&& after[resource_of(name)] == levels[resource_of(name)] - value
            &&& forall|other: Seq<char>|
                other != name && other != resource_of(name) ==> after[other] == levels[other]
        }),
{
    lemma_names_differ();
}

/// Whether a handler can work with this refill and this minimum: no
/// refill that is due then takes an ingredient beyond what a `u32` holds.
pub fn can_refill(replenish_value: u32, min_value: u32) -> (answer: bool)
    ensures
        answer == (min_value + replenish_value <= u32::MAX + 1),
{
    min_value == 0 || replenish_value <= u32::MAX - (min_value - 1)
}

/// Whether `ingredient` is one that the handler refills.
pub fn can_be_replenished(ingredient: &str) -> (answer: bool)
    ensures
        answer == is_replenishable(ingredient@),
{
    same_name(ingredient, COFFEE) || same_name(ingredient, HOT_WATER) || same_name(
        ingredient,
        FOAM,
    )
}

/// Whether a refill is due for an ingredient of which the store holds
/// `quantity`, where `min_value` is the minimum.
pub fn is_short(quantity: u32, min_value: u32) -> (answer: bool)
    ensures
        answer == due(quantity as nat, min_value as nat),
{
    quantity == 0 || quantity < min_value
}

/// Whether the handler whose shortage flag is `idx` has to go on
/// sleeping: it has as long as the flag is down.
pub fn has_to_wait(has_to_replenish: &Vec<bool>, idx: usize) -> (answer: bool)
    requires
        idx < has_to_replenish@.len(),
    ensures
        answer == !has_to_replenish@[idx as int],
{
    !has_to_replenish[idx]
}

/// Lowers the shortage flag `idx` and leaves the others as they are.
pub fn notify_replenished(has_to_replenish: &mut Vec<bool>, idx: usize)
    requires
        idx < old(has_to_replenish)@.len(),
    ensures
        final(has_to_replenish)@ == old(has_to_replenish)@.update(idx as int, false),
{
    has_to_replenish[idx] = false;
}

/// The shortage flag of `ingredient`.
pub fn flag_of(ingredient: &str) -> (idx: u32)
    requires
        is_replenishable(ingredient@),
    ensures
        idx == index_of(ingredient@),
        idx < 3,
{
    if same_name(ingredient, COFFEE) {
        IDX_COFFEE
    } else if same_name(ingredient, HOT_WATER) {
        IDX_WATER
    } else {
        IDX_FOAM
    }
}

/// The raw material that `ingredient` is made from.
pub fn resource(ingredient: &str) -> (resource: &'static str)
    requires
        is_replenishable(ingredient@),
    ensures
        resource@ == resource_of(ingredient@),
        is_ingredient(resource@),
        resource@ != ingredient@,
{
    proof {
        lemma_names_differ();
    }
    if same_name(ingredient, COFFEE) {
        GRAIN_COFFEE
    } else if same_name(ingredient, FOAM) {
        MILK
    } else {
        COLD_WATER
    }
}

/// The handler of one coffee machine, with the machine's store.
#[derive(Debug)]
pub struct IHandler {
    /// The machine that the handler belongs to.
    pub coffee_maker_id: u32,
    /// The machine's store.
    pub containers: Containers,
    /// The quantity that one refill adds.
    pub replenish_value: u32,
    /// The minimum: an ingredient is refilled while the store holds less
    /// of it than this, and in any case once nothing is left of it.
    pub min_value: u32,
}

impl IHandler {
    /// A refill never takes an ingredient beyond what a `u32` holds.
    pub open spec fn wf(&self) -> bool {
        self.min_value + self.replenish_value <= u32::MAX + 1
    }

    /// A handler without a minimum: it refills an ingredient by
    /// `replenish_value` once nothing is left of it.
    pub fn new(containers_list: Containers, id: u32, replenish_value: u32) -> (handler: IHandler)
        ensures
            handler.coffee_maker_id == id,
            handler.containers@ == containers_list@,
            handler.replenish_value == replenish_value,
            handler.min_value == 0,
            handler.wf(),
    {
        IHandler { coffee_maker_id: id, containers: containers_list, replenish_value, min_value: 0 }
    }

    /// A handler that refills an ingredient by `replenish_value` while the
    /// store holds less than `min_value` of it, and once nothing is left
    /// of it.
    pub fn with_min_value(
        containers_list: Containers,
        id: u32,
        replenish_value: u32,
        min_value: u32,
    ) -> (handler: IHandler)
        requires
            min_value + replenish_value <= u32::MAX + 1,
        ensures
            handler.coffee_maker_id == id,
            handler.containers@ == containers_list@,
            handler.replenish_value == replenish_value,
            handler.min_value == min_value,
            handler.wf(),
    {
        IHandler { coffee_maker_id: id, containers: containers_list, replenish_value, min_value }
    }

    /// Whether a refill of `ingredient` is due.
    pub fn has_to_replenish(&self, ingredient: &String) -> (result: Result<bool, Error>)
        requires
            is_ingredient(ingredient@),
        ensures
            result == Ok::<bool, Error>(due(self.containers@[ingredient@], self.min_value as nat)),
    {
        match self.containers.get_quantity_of(ingredient) {
            Ok(current_quantity) => Ok(is_short(current_quantity, self.min_value)),
            Err(error) => Err(error),
        }
    }

    /// The shortage flag of `ingredient`.
    pub fn get_index(&self, ingredient: String) -> (idx: u32)
        requires
            is_replenishable(ingredient@),
        ensures
            idx == index_of(ingredient@),
            idx < 3,
    {
        flag_of(&ingredient)
    }

    /// Takes one refill of the raw material of `ingredient` out of the
    /// store, if the store holds that much of it.
    pub fn get_ingredient(&mut self, ingredient: &String) -> (result: Result<(), Error>)
        requires
            is_replenishable(ingredient@),
        ensures
            final(self).containers@ == old(self).containers@.insert(
                resource_of(ingredient@),
                left_after(
                    old(self).containers@[resource_of(ingredient@)],
                    old(self).replenish_value as nat,
                ),
            ),
            final(self).coffee_maker_id == old(self).coffee_maker_id,
            final(self).replenish_value == old(self).replenish_value,
            final(self).min_value == old(self).min_value,
            result is Ok <==> old(self).containers@[resource_of(ingredient@)] >= old(
                self,
            ).replenish_value,
            result is Err ==> result == Err::<(), Error>(Error::NotEnoughIngredient),
            result is Err ==> final(self).containers@ == old(self).containers@,
    {
        let raw = resource(ingredient).to_owned();
        self.containers.get_ingredient(&raw, self.replenish_value, None, self.coffee_maker_id)
    }

    /// Adds one refill of `ingredient` to the store, if a refill of it is
    /// due.
    pub fn replenish_ingredient(&mut self, ingredient: &String) -> (result: Result<(), Error>)
        requires
            old(self).wf(),
            is_replenishable(ingredient@),
        ensures
            final(self).containers@ == if due(
                old(self).containers@[ingredient@],
                old(self).min_value as nat,
            ) {
                old(self).containers@.insert(
                    ingredient@,
                    old(self).containers@[ingredient@] + old(self).replenish_value as nat,
                )
            } else {
                old(self).containers@
            },
            final(self).coffee_maker_id == old(self).coffee_maker_id,
            final(self).replenish_value == old(self).replenish_value,
            final(self).min_value == old(self).min_value,
            result is Ok,
    {
        match self.has_to_replenish(ingredient) {
            Ok(true) => self.containers.replenish_ingredient(
                ingredient,
                self.replenish_value,
                self.coffee_maker_id,
            ),
            Ok(false) => Ok(()),
            Err(error) => Err(error),
        }
    }

    /// Looks after `ingredient`: if a refill of it is due, one refill
    /// goes from its raw material to the ingredient.
    /// Where the raw material does not hold a refill, nothing changes and
    /// the answer is `NotEnoughIngredient`.
    pub fn replenish(&mut self, ingredient: &String) -> (result: Result<(), Error>)
        requires
            old(self).wf(),
            is_replenishable(ingredient@),
        ensures
            final(self).containers@ == replenished(
                old(self).containers@,
                ingredient@,
                old(self).replenish_value as nat,
                old(self).min_value as nat,
            ),
            final(self).coffee_maker_id == old(self).coffee_maker_id,
            final(self).replenish_value == old(self).replenish_value,
            final(self).min_value == old(self).min_value,
            result is Err <==> lacks_resource(
                old(self).containers@,
                ingredient@,
                old(self).replenish_value as nat,
                old(self).min_value as nat,
            ),
            result is Err ==> result == Err::<(), Error>(Error::NotEnoughIngredient),
    {
        proof {
            lemma_names_differ();
        }
        match self.has_to_replenish(ingredient) {
            Ok(true) => {
                match self.get_ingredient(ingredient) {
                    Ok(()) => self.replenish_ingredient(ingredient),
                    Err(error) => Err(error),
                }
            },
            Ok(false) => Ok(()),
            Err(error) => Err(error),
        }
    }

    /// One turn of the handler for `ingredient`, whose shortage flag is
    /// `idx`. The handler reports that it is awake. If the flag is up, it
    /// looks after the ingredient and lowers the flag, whether or not the
    /// refill could be made: a refill that could not be made is passed
    /// over for this turn, and the turn ends well all the same. If the
    /// flag is down there is nothing to do.
    pub fn do_replenish(
        &mut self,
        ingredient: &String,
        has_to_replenish: &mut Vec<bool>,
        handler_is_awake: &mut Vec<bool>,
        idx: usize,
    ) -> (result: Result<(), Error>)
        requires
            old(self).wf(),
            is_replenishable(ingredient@),
            idx < old(has_to_replenish)@.len(),
            idx < old(handler_is_awake)@.len(),
        ensures
            final(handler_is_awake)@ == old(handler_is_awake)@.update(idx as int, true),
            final(has_to_replenish)@ == old(has_to_replenish)@.update(idx as int, false),
            final(self).containers@ == if old(has_to_replenish)@[idx as int] {
                replenished(
                    old(self).containers@,
                    ingredient@,
                    old(self).replenish_value as nat,
                    old(self).min_value as nat,
                )
            } else {
                old(self).containers@
            },
            final(self).coffee_maker_id == old(self).coffee_maker_id,
            final(self).replenish_value == old(self).replenish_value,
            final(self).min_value == old(self).min_value,
            result is Ok,
    {
        handler_is_awake[idx] = true;
        if !has_to_wait(has_to_replenish, idx) {
            let _ = self.replenish(ingredient);
            notify_replenished(has_to_replenish, idx);
        }
        assert(has_to_replenish@ =~= old(has_to_replenish)@.update(idx as int, false));
        Ok(())
    }
}

impl IHandler {
    /// A copy of the handler, with a copy of the store.
    pub fn copy(&self) -> (handler: IHandler)
        ensures
            handler.coffee_maker_id == self.coffee_maker_id,
            handler.containers@ == self.containers@,
            handler.replenish_value == self.replenish_value,
            handler.min_value == self.min_value,
    {
        IHandler {
            coffee_maker_id: self.coffee_maker_id,
            containers: self.containers.copy(),
            replenish_value: self.replenish_value,
            min_value: self.min_value,
        }
    }
}

} // verus!
