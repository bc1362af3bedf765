//! A dispenser: it serves one order out of the store of its machine.
//!
//! An order is served ingredient by ingredient: coffee, hot water, cocoa,
//! foam. What an earlier ingredient gave is not put back when a later one
//! is missing.

use vstd::prelude::*;
use crate::coffee_maker::CoffeeMaker;
use crate::container::left_after;
use crate::container::Container;
use crate::containers::is_ingredient;
use crate::containers::lemma_names_differ;
use crate::containers::COCOA;
use crate::containers::COFFEE;
use crate::containers::FOAM;
use crate::containers::HOT_WATER;
use crate::errors::Error;
use crate::ingredient_handler::can_be_replenished;
use crate::ingredient_handler::flag_of;
use crate::ingredient_handler::index_of;
use crate::ingredient_handler::is_replenishable;
use crate::ingredient_handler::replenished;
use crate::ingredient_handler::resource_of;
use crate::orders::Order;
use crate::orders_handler::notify_to_replenish_ingredient;

verus! {

/// What one attempt to take an ingredient gave.
#[derive(Debug, Clone, Copy, PartialEq, Eq, Structural)]
pub enum Attempt {
    /// The quantity was taken, and `left` is what the container then held.
    Got { left: u32 },
    /// The container held less than was asked, and nothing was taken.
    Missing,
}

/// How a dispenser goes on after an attempt.
#[derive(Debug, Clone, Copy, PartialEq, Eq, Structural)]
pub enum Next {
    /// On to the next ingredient of the order.
    Proceed,
    /// The same ingredient once more.
    Retry,
    /// The order is given up.
    GiveUp,
}

/// What a dispenser does after an attempt: first it raises the shortage
/// flag of the ingredient if `notify` says so, then it goes on as `next`
/// says.
#[derive(Debug, Clone, Copy, PartialEq, Eq, Structural)]
pub struct Verdict {
    pub notify: bool,
    pub next: Next,
}

/// The rule of a dispenser. An ingredient that was taken is followed by
/// the next one, and its flag goes up if it can be replenished and less
/// than `min` is left. An ingredient that is missing is asked for once
/// more, after its flag has gone up, if it can be replenished and has not
/// been asked for twice yet. In every other case the order is given up.
pub open spec fn verdict_of(replenishable: bool, retried: bool, attempt: Attempt, min: nat) -> Verdict {
    match attempt {
        Attempt::Got { left } => Verdict { notify: replenishable && left < min, next: Next::Proceed },
        Attempt::Missing => if replenishable && !retried {
            Verdict { notify: true, next: Next::Retry }
        } else {
            Verdict { notify: false, next: Next::GiveUp }
        },
    }
}

/// Decides how a dispenser goes on after `attempt`, where `retried` says
/// whether this was its second attempt at the ingredient.
pub fn after_attempt(replenishable: bool, retried: bool, attempt: Attempt, min_value: u32) -> (verdict:
    Verdict)
    ensures
        verdict == verdict_of(replenishable, retried, attempt, min_value as nat),
{
    match attempt {
        Attempt::Got { left } => Verdict { notify: replenishable && left < min_value, next: Next::Proceed },
        Attempt::Missing => if replenishable && !retried {
            Verdict { notify: true, next: Next::Retry }
        } else {
            Verdict { notify: false, next: Next::GiveUp }
        },
    }
}

/// What an attempt to take `value` out of a container that holds
/// `quantity` gives.
pub open spec fn attempt_of(quantity: nat, value: nat) -> Attempt {
    if quantity >= value {
        Attempt::Got { left: (quantity - value) as u32 }
    } else {
        Attempt::Missing
    }
}

/// One attempt to take `value` out of `container`. `dispenser_id` and
/// `coffee_maker_id` say who asks; the outcome does not depend on them.
pub fn attempt(
    container: &mut Container,
    value: u32,
    dispenser_id: Option<u32>,
    coffee_maker_id: u32,
) -> (outcome: Attempt)
    ensures
        outcome == attempt_of(old(container).quantity as nat, value as nat),
        final(container).name == old(container).name,
        final(container).quantity == left_after(old(container).quantity as nat, value as nat),
{
    match container.dispense(value, dispenser_id, coffee_maker_id) {
        Ok(()) => Attempt::Got { left: container.quantity },
        Err(_) => Attempt::Missing,
    }
}

/// The answer that `attempt` stands for: `NotEnoughIngredient` where the
/// ingredient was missing.
pub fn result_of(attempt: Attempt) -> (result: Result<(), Error>)
    ensures
        result == match attempt {
            Attempt::Got { .. } => Ok::<(), Error>(()),
            Attempt::Missing => Err::<(), Error>(Error::NotEnoughIngredient),
        },
{
    match attempt {
        Attempt::Got { .. } => Ok(()),
        Attempt::Missing => Err(Error::NotEnoughIngredient),
    }
}

/// The ingredient that an order asks for at `position`.
pub open spec fn ingredient_at(position: int) -> Seq<char> {
    if position == 0 {
        COFFEE@
    } else if position == 1 {
        HOT_WATER@
    } else if position == 2 {
        COCOA@
    } else {
        FOAM@
    }
}

/// How much `order` asks of the ingredient at `position`.
pub open spec fn amount_at(order: Order, position: int) -> nat {
    if position == 0 {
        order.coffee as nat
    } else if position == 1 {
        order.water as nat
    } else if position == 2 {
        order.cocoa as nat
    } else {
        order.foam as nat
    }
}

/// The ingredient that an order asks for at `position`, which is one of
/// 0, 1, 2 and 3.
pub fn ingredient(position: usize) -> (name: String)
    requires
        position < 4,
    ensures
        name@ == ingredient_at(position as int),
        is_ingredient(name@),
{
    if position == 0 {
        COFFEE.to_owned()
    } else if position == 1 {
        HOT_WATER.to_owned()
    } else if position == 2 {
        COCOA.to_owned()
    } else {
        FOAM.to_owned()
    }
}

/// How much `order` asks of the ingredient at `position`, which is one of
/// 0, 1, 2 and 3.
pub fn amount(order: &Order, position: usize) -> (value: u32)
    requires
        position < 4,
    ensures
        value == amount_at(*order, position as int),
{
    if position == 0 {
        order.coffee
    } else if position == 1 {
        order.water
    } else if position == 2 {
        order.cocoa
    } else {
        order.foam
    }
}

/// A store and its shortage flags while an order is served, and whether
/// the order is still being served or was given up.
pub struct Service {
    pub levels: Map<Seq<char>, nat>,
    pub flags: Seq<bool>,
    pub served: bool,
}

/// `flags` with the flag of `name` raised, if `name` has one.
pub open spec fn raised(flags: Seq<bool>, name: Seq<char>) -> Seq<bool> {
    if is_replenishable(name) {
        flags.update(index_of(name) as int, true)
    } else {
        flags
    }
}

/// `service` after a dispenser has asked for `amount` of `name`, with
/// nobody else at the store. An order that was given up stays as it is.
/// Where the store holds `amount`, that much is gone, and the flag of
/// `name` is up if less than `min` is left. Where it does not, nothing is
/// gone, the flag of `name` is up and the order is given up.
pub open spec fn take(service: Service, name: Seq<char>, amount: nat, min: nat) -> Service {
    if !service.served {
        service
    } else if service.levels[name] >= amount {
        let left = (service.levels[name] - amount) as nat;
        Service {
            levels: service.levels.insert(name, left),
            flags: if left < min {
                raised(service.flags, name)
            } else {
                service.flags
            },
            served: true,
        }
    } else {
        Service { levels: service.levels, flags: raised(service.flags, name), served: false }
    }
}

/// `service` after a dispenser has asked for the first `upto` ingredients
/// of `order`.
pub open spec fn served_upto(service: Service, order: Order, min: nat, upto: nat) -> Service
    decreases upto,
{
    if upto == 0 {
        service
    } else {
        take(
            served_upto(service, order, min, (upto - 1) as nat),
            ingredient_at(upto - 1),
            amount_at(order, upto - 1),
            min,
        )
    }
}

/// The store and the flags after a dispenser has made `order`, with
/// nobody else at the store, and whether it served the order in full.
pub open spec fn made(levels: Map<Seq<char>, nat>, flags: Seq<bool>, order: Order, min: nat) -> Service {
    served_upto(Service { levels, flags, served: true }, order, min, 4)
}

/// An order that was given up at some ingredient stays as it was then.
pub proof fn lemma_given_up(service: Service, order: Order, min: nat, at: nat, upto: nat)
    requires
        at <= upto,
        !served_upto(service, order, min, at).served,
    ensures
        served_upto(service, order, min, upto) == served_upto(service, order, min, at),
    decreases upto,
{
    if upto > at {
        lemma_given_up(service, order, min, at, (upto - 1) as nat);
    }
}

/// The first of the four ingredients of which `levels` holds less than
/// `order` asks for, or 4 if it holds enough of each.
pub open spec fn first_missing(levels: Map<Seq<char>, nat>, order: Order) -> nat {
    if levels[ingredient_at(0)] < amount_at(order, 0) {
        0
    } else if levels[ingredient_at(1)] < amount_at(order, 1) {
        1
    } else if levels[ingredient_at(2)] < amount_at(order, 2) {
        2
    } else if levels[ingredient_at(3)] < amount_at(order, 3) {
        3
    } else {
        4
    }
}

/// Nothing is put back. An order is served in full if and only if the
/// store holds enough of each of its four ingredients. If it does not,
/// the store has lost what the order asks of the ingredients that come
/// before the first one that is missing, and nothing of that one and of
/// those that come after it. Nothing else in the store changes either
/// way.
pub proof fn lemma_no_rollback(levels: Map<Seq<char>, nat>, flags: Seq<bool>, order: Order, min: nat)
    requires
        forall|name: Seq<char>| is_ingredient(name) ==> levels.dom().contains(name),
    ensures
        ({
            let service = made(levels, flags, order, min);
            let missing = first_missing(levels, order);
            &&& service.served <==> missing == 4
            &&& forall|position: int|
                0 <= position < missing ==> #[trigger] service.levels[ingredient_at(position)]
                    == levels[ingredient_at(position)] - amount_at(order, position)
            &&& forall|position: int|
                missing <= position < 4 ==> #[trigger] service.levels[ingredient_at(position)]
                    == levels[ingredient_at(position)]
            &&& forall|name: Seq<char>|
                is_ingredient(name) && name != COFFEE@ && name != HOT_WATER@ && name != COCOA@ && name
                    != FOAM@ ==> #[trigger] service.levels[name] == levels[name]
            &&& service.levels.dom() == levels.dom()
        }),
{
    lemma_names_differ();
    reveal_with_fuel(served_upto, 5);
    assert(levels.dom().contains(COFFEE@) && levels.dom().contains(HOT_WATER@)
        && levels.dom().contains(COCOA@) && levels.dom().contains(FOAM@)) by {
        assert(is_ingredient(COFFEE@) && is_ingredient(HOT_WATER@) && is_ingredient(COCOA@)
            && is_ingredient(FOAM@));
    }
    let start = Service { levels, flags, served: true };
    let first = served_upto(start, order, min, 1);
    let second = served_upto(start, order, min, 2);
    let third = served_upto(start, order, min, 3);
    let service = made(levels, flags, order, min);
    assert(first.levels.dom() =~= levels.dom());
    assert(second.levels.dom() =~= levels.dom());
    assert(third.levels.dom() =~= levels.dom());
    assert(service.levels.dom() =~= levels.dom());
}

/// A shortage is seen and made good. Once a dispenser has taken `amount`
/// of an ingredient that can be replenished, and less than `min` is left
/// of it, the shortage flag of the ingredient is up. If the store then
/// holds `value` of its raw material, the handler's turn for the
/// ingredient leaves the store with `value` more of the ingredient than
/// the dispenser left, and with `value` less of the raw material.
pub proof fn lemma_shortage_is_made_good(
    levels: Map<Seq<char>, nat>,
    flags: Seq<bool>,
    name: Seq<char>,
    amount: nat,
    value: nat,
    min: nat,
)
    requires
        is_replenishable(name),
        flags.len() >= 3,
        levels[name] >= amount,
        levels[name] - amount < min,
        levels[resource_of(name)] >= value,
    ensures
        ({
            let service = take(Service { levels, flags, served: true }, name, amount, min);
            let after = replenished(service.levels, name, value, min);
            &&& service.served
            &&& service.levels[name] == levels[name] - amount
            &&& service.flags[index_of(name) as int]
            &&& after[name] == levels[name] - amount + value
            &&& after[resource_of(name)] == levels[resource_of(name)] - value
        }),
{
    lemma_names_differ();
}

/// Counts one more order as processed.
pub fn notify_one_order_processed(orders_processed: &mut i32, dispenser_id: u32, coffee_maker_id: u32) -> (result:
    Result<(), Error>)
    requires
        *old(orders_processed) < i32::MAX,
    ensures
        *final(orders_processed) == *old(orders_processed) + 1,
        result is Ok,
{
    *orders_processed += 1;
    Ok(())
}

/// Asks the store of `coffee_maker` for `value` of `ingredient`, as a
/// dispenser does: with one more attempt where the first one fails for an
/// ingredient that can be replenished.
pub fn take_one(
    coffee_maker: &mut CoffeeMaker,
    ingredient: &String,
    value: u32,
    dispenser_id: u32,
    has_to_replenish: &mut Vec<bool>,
) -> (result: Result<(), Error>)
    requires
        is_ingredient(ingredient@),
        old(has_to_replenish)@.len() >= 3,
    ensures
        ({
            let service = take(
                Service {
                    levels: old(coffee_maker).handler.containers@,
                    flags: old(has_to_replenish)@,
                    served: true,
                },
                ingredient@,
                value as nat,
                old(coffee_maker).handler.min_value as nat,
            );
            &&& final(coffee_maker).handler.containers@ == service.levels
            &&& final(has_to_replenish)@ == service.flags
            &&& result is Ok <==> service.served
        }),
        result is Err ==> result == Err::<(), Error>(Error::NotEnoughIngredient),
        final(has_to_replenish)@.len() == old(has_to_replenish)@.len(),
        final(coffee_maker).id == old(coffee_maker).id,
        final(coffee_maker).handler.coffee_maker_id == old(coffee_maker).handler.coffee_maker_id,
        final(coffee_maker).handler.replenish_value == old(coffee_maker).handler.replenish_value,
        final(coffee_maker).handler.min_value == old(coffee_maker).handler.min_value,
{
    let replenishable = can_be_replenished(ingredient);
    let mut retried = false;
    loop
        invariant
            is_ingredient(ingredient@),
            replenishable == is_replenishable(ingredient@),
            coffee_maker.id == old(coffee_maker).id,
            coffee_maker.handler.coffee_maker_id == old(coffee_maker).handler.coffee_maker_id,
            coffee_maker.handler.replenish_value == old(coffee_maker).handler.replenish_value,
            coffee_maker.handler.min_value == old(coffee_maker).handler.min_value,
            coffee_maker.handler.containers@ == old(coffee_maker).handler.containers@,
            retried ==> replenishable && old(coffee_maker).handler.containers@[ingredient@] < value,
            old(has_to_replenish)@.len() >= 3,
            has_to_replenish@ == if retried {
                raised(old(has_to_replenish)@, ingredient@)
            } else {
                old(has_to_replenish)@
            },
        decreases
            if retried {
                0int
            } else {
                1int
            },
    {
        let attempt = match coffee_maker.handler.containers.get_ingredient(
            ingredient,
            value,
            Some(dispenser_id),
            coffee_maker.id,
        ) {
            Ok(()) => match coffee_maker.handler.containers.get_quantity_of(ingredient) {
                Ok(left) => Attempt::Got { left },
                Err(_) => Attempt::Missing,
            },
            Err(_) => Attempt::Missing,
        };
        let verdict = after_attempt(replenishable, retried, attempt, coffee_maker.handler.min_value);
        if verdict.notify {
            notify_to_replenish_ingredient(has_to_replenish, flag_of(ingredient));
        }
        match verdict.next {
            Next::Proceed => {
                return Ok(());
            },
            Next::Retry => {
                retried = true;
            },
            Next::GiveUp => {
                assert(has_to_replenish@ =~= raised(old(has_to_replenish)@, ingredient@));
                return Err(Error::NotEnoughIngredient);
            },
        }
    }
}

/// Makes `order` out of the store of `coffee_maker`: asks for its four
/// ingredients one after the other and gives up at the first that is
/// missing. An order that was served in full is counted as processed.
pub fn make_order(
    order: Order,
    coffee_maker: &mut CoffeeMaker,
    dispenser_id: u32,
    orders_processed: &mut i32,
    has_to_replenish: &mut Vec<bool>,
) -> (result: Result<(), Error>)
    requires
        old(has_to_replenish)@.len() >= 3,
        *old(orders_processed) < i32::MAX,
    ensures
        ({
            let service = made(
                old(coffee_maker).handler.containers@,
                old(has_to_replenish)@,
                order,
                old(coffee_maker).handler.min_value as nat,
            );
            &&& final(coffee_maker).handler.containers@ == service.levels
            &&& final(has_to_replenish)@ == service.flags
            &&& result is Ok <==> service.served
            &&& *final(orders_processed) == *old(orders_processed) + if service.served {
                1int
            } else {
                0int
            }
        }),
        result is Err ==> result == Err::<(), Error>(Error::NotEnoughIngredient),
        final(has_to_replenish)@.len() == old(has_to_replenish)@.len(),
        final(coffee_maker).id == old(coffee_maker).id,
        final(coffee_maker).handler.coffee_maker_id == old(coffee_maker).handler.coffee_maker_id,
        final(coffee_maker).handler.replenish_value == old(coffee_maker).handler.replenish_value,
        final(coffee_maker).handler.min_value == old(coffee_maker).handler.min_value,
{
    let ghost start = Service {
        levels: old(coffee_maker).handler.containers@,
        flags: old(has_to_replenish)@,
        served: true,
    };
    let ghost min = old(coffee_maker).handler.min_value as nat;
    let mut position: usize = 0;
    while position < 4
        invariant
            position <= 4,
            min == old(coffee_maker).handler.min_value,
            start.levels == old(coffee_maker).handler.containers@,
            start.flags == old(has_to_replenish)@,
            start.served,
            coffee_maker.id == old(coffee_maker).id,
            coffee_maker.handler.coffee_maker_id == old(coffee_maker).handler.coffee_maker_id,
            coffee_maker.handler.replenish_value == old(coffee_maker).handler.replenish_value,
            coffee_maker.handler.min_value == old(coffee_maker).handler.min_value,
            *orders_processed == *old(orders_processed),
            has_to_replenish@.len() == old(has_to_replenish)@.len(),
            has_to_replenish@.len() >= 3,
            served_upto(start, order, min, position as nat) == (Service {
                levels: coffee_maker.handler.containers@,
                flags: has_to_replenish@,
                served: true,
            }),
        decreases 4 - position,
    {
        let name = ingredient(position);
        let value = amount(&order, position);
        match take_one(coffee_maker, &name, value, dispenser_id, has_to_replenish) {
            Ok(()) => {
                position += 1;
            },
            Err(error) => {
                proof {
                    let given_up = served_upto(start, order, min, (position + 1) as nat);
                    assert(!given_up.served);
                    lemma_given_up(start, order, min, (position + 1) as nat, 4);
                    assert(made(start.levels, start.flags, order, min) == given_up);
                }
                return Err(error);
            },
        }
    }
    notify_one_order_processed(orders_processed, dispenser_id, coffee_maker.id)
}

} // verus!
