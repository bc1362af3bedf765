//! The backlog of orders and the shortage flags that go with it.
//!
//! The backlog is a sequence of orders that only ever loses its first
//! one. The shortage flags are one `bool` for each ingredient that can be
//! replenished; a dispenser raises them and the ingredient handler lowers
//! them.

use vstd::prelude::*;
use crate::coffee_maker::CoffeeMaker;
use crate::dispensers::made;
use crate::dispensers::make_order;
use crate::errors::Error;
use crate::orders::Order;

verus! {

/// The flag of coffee.
pub const IDX_COFFEE: u32 = 0;

/// The flag of hot water.
pub const IDX_WATER: u32 = 1;

/// The flag of foam.
pub const IDX_FOAM: u32 = 2;

/// As many flags as `flags`, every one of them raised.
pub open spec fn every_raised(flags: Seq<bool>) -> Seq<bool> {
    Seq::new(flags.len(), |i: int| true)
}

/// The order that the next call hands out, if one is pending.
pub open spec fn next_order(pending: Seq<Order>) -> Option<Order> {
    if pending.len() > 0 {
        Some(pending[0])
    } else {
        None
    }
}

/// What is pending after the next call.
pub open spec fn rest(pending: Seq<Order>) -> Seq<Order> {
    if pending.len() > 0 {
        pending.drop_first()
    } else {
        pending
    }
}

/// What is pending after `calls` calls of `get_order`, whoever made them.
pub open spec fn pending_after(pending: Seq<Order>, calls: nat) -> Seq<Order>
    decreases calls,
{
    if calls == 0 {
        pending
    } else {
        pending_after(rest(pending), (calls - 1) as nat)
    }
}

/// The orders that `calls` calls of `get_order` hand out, one after the
/// other, whoever made them.
pub open spec fn handed_out(pending: Seq<Order>, calls: nat) -> Seq<Order>
    decreases calls,
{
    if calls == 0 {
        Seq::empty()
    } else {
        match next_order(pending) {
            Some(order) => seq![order] + handed_out(rest(pending), (calls - 1) as nat),
            None => Seq::empty(),
        }
    }
}

/// A store, its shortage flags and the count of orders processed, in the
/// course of a dispenser's work.
pub struct Shift {
    pub levels: Map<Seq<char>, nat>,
    pub flags: Seq<bool>,
    pub processed: int,
}

/// `shift` after a dispenser has made `order`, with nobody else at the
/// store.
pub open spec fn after_order(shift: Shift, order: Order, min: nat) -> Shift {
    let service = made(shift.levels, shift.flags, order, min);
    Shift {
        levels: service.levels,
        flags: service.flags,
        processed: shift.processed + if service.served {
            1int
        } else {
            0int
        },
    }
}

/// `shift` after a dispenser has made the orders of `pending` one after
/// the other, with nobody else at the store.
pub open spec fn after_orders(shift: Shift, pending: Seq<Order>, min: nat) -> Shift
    decreases pending.len(),
{
    if pending.len() == 0 {
        shift
    } else {
        after_orders(after_order(shift, pending[0], min), pending.drop_first(), min)
    }
}

/// Whether nothing is pending, so that the next call of `get_order`
/// answers `NoMoreOrders`. Handlers, alerter and presenter stop once this
/// is so.
pub fn no_more_orders(orders: &Vec<Order>) -> (answer: bool)
    ensures
        answer == (next_order(orders@) is None),
{
    orders.is_empty()
}

/// Raises every shortage flag, so that no handler goes on waiting for one.
pub fn notify_to_replenish(has_to_replenish: &mut Vec<bool>)
    ensures
        final(has_to_replenish)@ == every_raised(old(has_to_replenish)@),
{
    let mut i: usize = 0;
    while i < has_to_replenish.len()
        invariant
            i <= has_to_replenish@.len(),
            has_to_replenish@.len() == old(has_to_replenish)@.len(),
            forall|j: int| 0 <= j < i ==> has_to_replenish@[j],
        decreases has_to_replenish@.len() - i,
    {
        has_to_replenish[i] = true;
        i += 1;
    }
    assert(has_to_replenish@ =~= every_raised(old(has_to_replenish)@));
}

/// Raises the shortage flag `idx` and leaves the others as they are.
pub fn notify_to_replenish_ingredient(has_to_replenish: &mut Vec<bool>, idx: u32)
    requires
        idx < old(has_to_replenish)@.len(),
    ensures
        final(has_to_replenish)@ == old(has_to_replenish)@.update(idx as int, true),
{
    has_to_replenish[idx as usize] = true;
}

/// Hands out the first pending order and takes it off the backlog. Once
/// nothing is pending it raises every shortage flag and answers
/// `NoMoreOrders`; the flags stay as they are in every other case.
pub fn get_order(orders: &mut Vec<Order>, has_to_replenish: &mut Vec<bool>) -> (result: Result<
    Order,
    Error,
>)
    ensures
        final(orders)@ == rest(old(orders)@),
        match next_order(old(orders)@) {
            Some(order) => {
                &&& result == Ok::<Order, Error>(order)
                &&& final(has_to_replenish)@ == old(has_to_replenish)@
            },
            None => {
                &&& result == Err::<Order, Error>(Error::NoMoreOrders)
                &&& final(has_to_replenish)@ == every_raised(old(has_to_replenish)@)
            },
        },
{
    if !orders.is_empty() {
        let order = orders.remove(0);
        assert(orders@ =~= old(orders)@.drop_first());
        Ok(order)
    } else {
        notify_to_replenish(has_to_replenish);
        Err(Error::NoMoreOrders)
    }
}

/// The work of one dispenser: it takes one order after the other off the
/// backlog and makes it, until nothing is pending. An order for which an
/// ingredient is missing is given up, and the next one is taken. The
/// answer is `NoMoreOrders`, and every shortage flag is then up.
pub fn process_order(
    orders: &mut Vec<Order>,
    coffee_maker: &mut CoffeeMaker,
    dispenser_id: u32,
    orders_processed: &mut i32,
    has_to_replenish: &mut Vec<bool>,
) -> (result: Result<(), Error>)
    requires
        old(has_to_replenish)@.len() >= 3,
        *old(orders_processed) + old(orders)@.len() <= i32::MAX,
    ensures
        ({
            let shift = after_orders(
                Shift {
                    levels: old(coffee_maker).handler.containers@,
                    flags: old(has_to_replenish)@,
                    processed: *old(orders_processed) as int,
                },
                old(orders)@,
                old(coffee_maker).handler.min_value as nat,
            );
            &&& final(coffee_maker).handler.containers@ == shift.levels
            &&& final(has_to_replenish)@ == every_raised(shift.flags)
            &&& *final(orders_processed) == shift.processed
        }),
        final(orders)@.len() == 0,
        result == Err::<(), Error>(Error::NoMoreOrders),
        final(coffee_maker).id == old(coffee_maker).id,
        final(coffee_maker).handler.coffee_maker_id == old(coffee_maker).handler.coffee_maker_id,
        final(coffee_maker).handler.replenish_value == old(coffee_maker).handler.replenish_value,
        final(coffee_maker).handler.min_value == old(coffee_maker).handler.min_value,
{
    let ghost start = Shift {
        levels: old(coffee_maker).handler.containers@,
        flags: old(has_to_replenish)@,
        processed: *old(orders_processed) as int,
    };
    let ghost min = old(coffee_maker).handler.min_value as nat;
    loop
        invariant
            has_to_replenish@.len() >= 3,
            *orders_processed + orders@.len() <= i32::MAX,
            coffee_maker.id == old(coffee_maker).id,
            coffee_maker.handler.coffee_maker_id == old(coffee_maker).handler.coffee_maker_id,
            coffee_maker.handler.replenish_value == old(coffee_maker).handler.replenish_value,
            coffee_maker.handler.min_value == old(coffee_maker).handler.min_value,
            min == old(coffee_maker).handler.min_value,
            start.levels == old(coffee_maker).handler.containers@,
            start.flags == old(has_to_replenish)@,
            start.processed == *old(orders_processed),
            after_orders(start, old(orders)@, min) == after_orders(
                Shift {
                    levels: coffee_maker.handler.containers@,
                    flags: has_to_replenish@,
                    processed: *orders_processed as int,
                },
                orders@,
                min,
            ),
        decreases orders@.len(),
    {
        match get_order(orders, has_to_replenish) {
            Ok(order) => {
                match make_order(order, coffee_maker, dispenser_id, orders_processed, has_to_replenish) {
                    Ok(()) => {},
                    Err(error) => match error {
                        Error::NotEnoughIngredient => {
                            continue ;
                        },
                        _ => {
                            return Err(error);
                        },
                    },
                }
            },
            Err(error) => {
                return Err(error);
            },
        }
    }
}

/// No order is lost and none is handed out twice: after any number of
/// calls, the orders handed out, in the order of the calls, followed by
/// the orders still pending, are the backlog as it was at the start.
pub proof fn lemma_every_order_once(pending: Seq<Order>, calls: nat)
    ensures
        handed_out(pending, calls) + pending_after(pending, calls) == pending,
        handed_out(pending, calls).len() + pending_after(pending, calls).len() == pending.len(),
    decreases calls,
{
    if calls == 0 {
        assert(handed_out(pending, calls) + pending_after(pending, calls) =~= pending);
    } else if pending.len() == 0 {
        lemma_stays_empty(pending, calls);
        assert(handed_out(pending, calls) + pending_after(pending, calls) =~= pending);
    } else {
        lemma_every_order_once(rest(pending), (calls - 1) as nat);
        let tail = handed_out(rest(pending), (calls - 1) as nat);
        let left = pending_after(rest(pending), (calls - 1) as nat);
        assert(tail + left == pending.drop_first());
        assert((seq![pending[0]] + tail) + left =~= seq![pending[0]] + (tail + left));
        assert(seq![pending[0]] + pending.drop_first() =~= pending);
    }
}

/// An empty backlog stays empty.
pub proof fn lemma_stays_empty(pending: Seq<Order>, calls: nat)
    requires
        pending.len() == 0,
    ensures
        pending_after(pending, calls) == pending,
    decreases calls,
{
    if calls > 0 {
        lemma_stays_empty(rest(pending), (calls - 1) as nat);
    }
}

/// The backlog never grows.
pub proof fn lemma_pending_shrinks(pending: Seq<Order>, calls: nat)
    ensures
        pending_after(pending, calls).len() <= pending.len(),
        pending_after(pending, calls + 1) == rest(pending_after(pending, calls)),
    decreases calls,
{
    assert(pending_after(pending, calls + 1) == pending_after(rest(pending), calls));
    if calls > 0 {
        lemma_pending_shrinks(rest(pending), (calls - 1) as nat);
        assert(pending_after(pending, calls) == pending_after(rest(pending), (calls - 1) as nat));
    } else {
        assert(pending_after(rest(pending), 0) == rest(pending));
    }
}

/// `NoMoreOrders` is final: once a call has found nothing pending, every
/// later call finds nothing pending either.
pub proof fn lemma_no_more_orders_is_final(pending: Seq<Order>, calls: nat, later: nat)
    requires
        next_order(pending_after(pending, calls)) is None,
        later >= calls,
    ensures
        next_order(pending_after(pending, later)) is None,
    decreases later - calls,
{
    if later > calls {
        lemma_no_more_orders_is_final(pending, calls, (later - 1) as nat);
        lemma_pending_shrinks(pending, (later - 1) as nat);
    }
}

} // verus!
