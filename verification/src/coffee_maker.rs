//! One coffee machine: its store and the handler that keeps it filled.

use vstd::prelude::*;
use crate::containers::lemma_names_differ;
use crate::containers::new_store;
use crate::containers::Containers;
use crate::containers::COCOA;
use crate::containers::COFFEE;
use crate::containers::FOAM;
use crate::containers::GRAIN_COFFEE;
use crate::containers::HOT_WATER;
use crate::containers::MILK;
use crate::dispensers::made;
use crate::dispensers::make_order;
use crate::errors::Error;
use crate::ingredient_handler::replenished;
use crate::ingredient_handler::IHandler;
use crate::orders::Order;
use crate::orders_handler::get_order;
use crate::stats_presenter::watched_ingredients;

verus! {

/// The store after the handler has taken one turn for each of coffee, hot
/// water and foam, in this order, where `flags` are the shortage flags at
/// the start: an ingredient whose flag is down is passed over.
pub open spec fn looked_after(
    levels: Map<Seq<char>, nat>,
    flags: Seq<bool>,
    value: nat,
    min: nat,
) -> Map<Seq<char>, nat> {
    let first = if flags[0] {
        replenished(levels, COFFEE@, value, min)
    } else {
        levels
    };
    let second = if flags[1] {
        replenished(first, HOT_WATER@, value, min)
    } else {
        first
    };
    if flags[2] {
        replenished(second, FOAM@, value, min)
    } else {
        second
    }
}

/// The store and the count of orders processed after a machine has run
/// on the backlog `pending`: one dispenser makes the orders one after the
/// other, and after each of them the handler takes a turn for every
/// ingredient whose shortage flag the order has raised. Once nothing is
/// pending, every flag is up and the handler takes its last turn.
pub open spec fn after_run(
    levels: Map<Seq<char>, nat>,
    processed: int,
    pending: Seq<Order>,
    value: nat,
    min: nat,
) -> (Map<Seq<char>, nat>, int)
    decreases pending.len(),
{
    if pending.len() == 0 {
        (looked_after(levels, seq![true, true, true], value, min), processed)
    } else {
        let service = made(levels, seq![false, false, false], pending[0], min);
        after_run(
            looked_after(service.levels, service.flags, value, min),
            processed + if service.served {
                1int
            } else {
                0int
            },
            pending.drop_first(),
            value,
            min,
        )
    }
}

/// `flags` with the three shortage flags set to `value`.
pub open spec fn three_set(flags: Seq<bool>, value: bool) -> Seq<bool> {
    flags.update(0, value).update(1, value).update(2, value)
}

/// Whether a dispenser has to wait before it takes its first order: it
/// has as long as one of the handlers has not reported itself awake.
pub fn has_to_wait(handler_is_awake: &Vec<bool>) -> (answer: bool)
    ensures
        answer == exists|i: int| 0 <= i < handler_is_awake@.len() && !handler_is_awake@[i],
{
    let mut i: usize = 0;
    while i < handler_is_awake.len()
        invariant
            i <= handler_is_awake@.len(),
            forall|j: int| 0 <= j < i ==> handler_is_awake@[j],
        decreases handler_is_awake@.len() - i,
    {
        if !handler_is_awake[i] {
            return true;
        }
        i += 1;
    }
    false
}

/// One coffee machine. Its store is the one that its handler keeps.
#[derive(Debug)]
pub struct CoffeeMaker {
    pub id: u32,
    pub handler: IHandler,
}

impl CoffeeMaker {
    /// See `IHandler::wf`.
    pub open spec fn wf(&self) -> bool {
        self.handler.wf()
    }

    /// A machine with `initial_quantity` of every ingredient but cold
    /// water, without a minimum: its handler refills by `replenish_value`
    /// what has run out.
    pub fn new(id_value: u32, initial_quantity: u32, replenish_value: u32) -> (maker: CoffeeMaker)
        ensures
            maker.id == id_value,
            maker.handler.coffee_maker_id == id_value,
            maker.handler.containers@ == new_store(initial_quantity as nat),
            maker.handler.replenish_value == replenish_value,
            maker.handler.min_value == 0,
            maker.wf(),
    {
        let containers = Containers::new(initial_quantity);
        CoffeeMaker { id: id_value, handler: IHandler::new(containers, id_value, replenish_value) }
    }

    /// A machine with `initial_quantity` of every ingredient but cold
    /// water, whose handler refills by `replenish_value` what has fallen
    /// below `min_value` or has run out.
    pub fn with_min_value(
        id_value: u32,
        initial_quantity: u32,
        replenish_value: u32,
        min_value: u32,
    ) -> (maker: CoffeeMaker)
        requires
            min_value + replenish_value <= u32::MAX + 1,
        ensures
            maker.id == id_value,
            maker.handler.coffee_maker_id == id_value,
            maker.handler.containers@ == new_store(initial_quantity as nat),
            maker.handler.replenish_value == replenish_value,
            maker.handler.min_value == min_value,
            maker.wf(),
    {
        let containers = Containers::new(initial_quantity);
        CoffeeMaker {
            id: id_value,
            handler: IHandler::with_min_value(containers, id_value, replenish_value, min_value),
        }
    }

    /// The ingredients whose level is watched for an alert: grain coffee,
    /// milk and cocoa, each at the place of its alert flag.
    pub fn get_values(&self) -> (values: Vec<String>)
        ensures
            values@.len() == 3,
            values@[0]@ == GRAIN_COFFEE@,
            values@[1]@ == MILK@,
            values@[2]@ == COCOA@,
    {
        watched_ingredients()
    }

    /// One turn of the handler for each of coffee, hot water and foam, in
    /// this order. It lowers the three shortage flags and reports the
    /// three handlers awake. A refill that could not be made is passed
    /// over; the turns end well all the same.
    pub fn handle_replenish(
        &mut self,
        has_to_replenish: &mut Vec<bool>,
        handler_is_awake: &mut Vec<bool>,
    ) -> (result: Result<(), Error>)
        requires
            old(self).wf(),
            old(has_to_replenish)@.len() >= 3,
            old(handler_is_awake)@.len() >= 3,
        ensures
            final(self).handler.containers@ == looked_after(
                old(self).handler.containers@,
                old(has_to_replenish)@,
                old(self).handler.replenish_value as nat,
                old(self).handler.min_value as nat,
            ),
            final(self).id == old(self).id,
            final(self).handler.coffee_maker_id == old(self).handler.coffee_maker_id,
            final(self).handler.replenish_value == old(self).handler.replenish_value,
            final(self).handler.min_value == old(self).handler.min_value,
            final(has_to_replenish)@ == three_set(old(has_to_replenish)@, false),
            final(handler_is_awake)@ == three_set(old(handler_is_awake)@, true),
            result is Ok,
    {
        proof {
            lemma_names_differ();
        }
        let coffee = COFFEE.to_owned();
        let idx = self.handler.get_index(COFFEE.to_owned());
        let _ = self.handler.do_replenish(&coffee, has_to_replenish, handler_is_awake, idx as usize);
        let hot_water = HOT_WATER.to_owned();
        let idx = self.handler.get_index(HOT_WATER.to_owned());
        let _ = self.handler.do_replenish(
            &hot_water,
            has_to_replenish,
            handler_is_awake,
            idx as usize,
        );
        let foam = FOAM.to_owned();
        let idx = self.handler.get_index(FOAM.to_owned());
        let _ = self.handler.do_replenish(&foam, has_to_replenish, handler_is_awake, idx as usize);
        assert(has_to_replenish@ =~= three_set(old(has_to_replenish)@, false));
        assert(handler_is_awake@ =~= three_set(old(handler_is_awake)@, true));
        Ok(())
    }
}

impl CoffeeMaker {
    /// Runs the machine on the backlog `orders` until nothing is pending,
    /// with one dispenser and the handler taking turns: see `after_run`.
    pub fn start(&mut self, orders: &mut Vec<Order>, orders_processed: &mut i32) -> (result: Result<
        (),
        Error,
    >)
        requires
            old(self).wf(),
            *old(orders_processed) + old(orders)@.len() <= i32::MAX,
        ensures
            (final(self).handler.containers@, *final(orders_processed) as int) == after_run(
                old(self).handler.containers@,
                *old(orders_processed) as int,
                old(orders)@,
                old(self).handler.replenish_value as nat,
                old(self).handler.min_value as nat,
            ),
            final(orders)@.len() == 0,
            final(self).id == old(self).id,
            final(self).handler.coffee_maker_id == old(self).handler.coffee_maker_id,
            final(self).handler.replenish_value == old(self).handler.replenish_value,
            final(self).handler.min_value == old(self).handler.min_value,
            result is Ok,
    {
        let mut has_to_replenish: Vec<bool> = vec![false, false, false];
        let mut handler_is_awake: Vec<bool> = vec![false, false, false];
        let _ = self.handle_replenish(&mut has_to_replenish, &mut handler_is_awake);
        assert(has_to_replenish@ =~= seq![false, false, false]);
        let ghost value = old(self).handler.replenish_value as nat;
        let ghost min = old(self).handler.min_value as nat;
        loop
            invariant
                self.wf(),
                self.id == old(self).id,
                self.handler.coffee_maker_id == old(self).handler.coffee_maker_id,
                self.handler.replenish_value == old(self).handler.replenish_value,
                self.handler.min_value == old(self).handler.min_value,
                value == old(self).handler.replenish_value,
                min == old(self).handler.min_value,
                has_to_replenish@ == seq![false, false, false],
                handler_is_awake@.len() == 3,
                *orders_processed + orders@.len() <= i32::MAX,
                after_run(
                    old(self).handler.containers@,
                    *old(orders_processed) as int,
                    old(orders)@,
                    value,
                    min,
                ) == after_run(
                    self.handler.containers@,
                    *orders_processed as int,
                    orders@,
                    value,
                    min,
                ),
            decreases orders@.len(),
        {
            match get_order(orders, &mut has_to_replenish) {
                Ok(order) => {
                    let _ = make_order(order, self, 0, orders_processed, &mut has_to_replenish);
                    let _ = self.handle_replenish(&mut has_to_replenish, &mut handler_is_awake);
                    assert(has_to_replenish@ =~= seq![false, false, false]);
                },
                Err(_) => {
                    assert(has_to_replenish@ =~= seq![true, true, true]);
                    let _ = self.handle_replenish(&mut has_to_replenish, &mut handler_is_awake);
                    return Ok(());
                },
            }
        }
    }
}

impl CoffeeMaker {
    /// A copy of the machine, with a copy of the store.
    pub fn copy(&self) -> (maker: CoffeeMaker)
        ensures
            maker.id == self.id,
            maker.handler.coffee_maker_id == self.handler.coffee_maker_id,
            maker.handler.containers@ == self.handler.containers@,
            maker.handler.replenish_value == self.handler.replenish_value,
            maker.handler.min_value == self.handler.min_value,
    {
        CoffeeMaker { id: self.id, handler: self.handler.copy() }
    }
}

} // verus!
