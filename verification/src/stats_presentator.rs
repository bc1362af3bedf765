//! A plainer presenter of a fleet of coffee machines. It watches the six
//! ingredients that are served or made into what is served, which leaves
//! out cold water, and it counts what has left each container without
//! asking where it went.

use vstd::prelude::*;
use crate::coffee_maker::CoffeeMaker;
use crate::containers::is_ingredient;
use crate::containers::lemma_names_differ;
use crate::containers::position_of;
use crate::containers::Containers;
use crate::containers::COLD_WATER;
use crate::stat_maker::name_at;
use crate::stat_maker::sum_of;
use crate::stat_maker::total;
use crate::stat_maker::Quantities;

verus! {

/// The ingredients that this presenter watches.
pub open spec fn is_watched(name: Seq<char>) -> bool {
    is_ingredient(name) && name != COLD_WATER@
}

/// What a store holds of each watched ingredient. For cold water the
/// answer holds 0.
pub fn get_quantity_of(containers: &Containers) -> (quantities: Quantities)
    ensures
        forall|name: Seq<char>| is_watched(name) ==> #[trigger] quantities@[name] == containers@[name],
        quantities@[COLD_WATER@] == 0,
{
    proof {
        lemma_names_differ();
    }
    let mut quantities = Quantities::new(0);
    let mut position: usize = 0;
    while position < 6
        invariant
            position <= 6,
            position_of(COLD_WATER@) == 6,
            quantities@[COLD_WATER@] == 0,
            forall|name: Seq<char>|
                is_watched(name) && position_of(name) < position ==> #[trigger] quantities@[name]
                    == containers@[name],
        decreases 6 - position,
    {
        let name = name_at(position);
        quantities.set(name, containers.container(name).quantity);
        position += 1;
    }
    quantities
}

/// What each machine holds of each watched ingredient, machine by
/// machine.
pub fn get_info_of(coffee_makers: Vec<CoffeeMaker>) -> (info: Vec<Quantities>)
    ensures
        info@.len() == coffee_makers@.len(),
        forall|i: int, name: Seq<char>|
            0 <= i < info@.len() && is_watched(name) ==> #[trigger] info@[i]@[name]
                == coffee_makers@[i].handler.containers@[name],
        forall|i: int| 0 <= i < info@.len() ==> (#[trigger] info@[i])@[COLD_WATER@] == 0,
{
    let mut info: Vec<Quantities> = Vec::new();
    let mut i: usize = 0;
    while i < coffee_makers.len()
        invariant
            i <= coffee_makers@.len(),
            info@.len() == i,
            forall|j: int, name: Seq<char>|
                0 <= j < i && is_watched(name) ==> #[trigger] info@[j]@[name]
                    == coffee_makers@[j].handler.containers@[name],
            forall|j: int| 0 <= j < i ==> (#[trigger] info@[j])@[COLD_WATER@] == 0,
        decreases coffee_makers@.len() - i,
    {
        info.push(get_quantity_of(&coffee_makers[i].handler.containers));
        i += 1;
    }
    info
}

/// The orders processed so far, of `total` that came in, when `current`
/// are still pending.
pub fn get_orders_processed(total: u32, current: u32) -> (processed: u32)
    requires
        current <= total,
    ensures
        processed == total - current,
{
    total - current
}

/// What has left the containers of each watched ingredient, where
/// `containers_level` is what each machine holds now and
/// `initial_quantity` is what the machines held of each watched
/// ingredient between them when they were new. For cold water the answer
/// holds 0.
pub fn get_ingredients_consumed(containers_level: Vec<Quantities>, initial_quantity: u32) -> (ingredients_consumed:
    Quantities)
    requires
        forall|name: Seq<char>|
            is_watched(name) ==> #[trigger] total(containers_level@, name) <= initial_quantity,
    ensures
        forall|name: Seq<char>|
            is_watched(name) ==> #[trigger] ingredients_consumed@[name] == initial_quantity - total(
                containers_level@,
                name,
            ),
        ingredients_consumed@[COLD_WATER@] == 0,
{
    proof {
        lemma_names_differ();
    }
    let mut ingredients_consumed = Quantities::new(0);
    let mut position: usize = 0;
    while position < 6
        invariant
            position <= 6,
            position_of(COLD_WATER@) == 6,
            ingredients_consumed@[COLD_WATER@] == 0,
            forall|name: Seq<char>|
                is_watched(name) ==> #[trigger] total(containers_level@, name) <= initial_quantity,
            forall|name: Seq<char>|
                is_watched(name) && position_of(name) < position
                    ==> #[trigger] ingredients_consumed@[name] == initial_quantity - total(
                    containers_level@,
                    name,
                ),
        decreases 6 - position,
    {
        let name = name_at(position);
        assert(is_watched(name@));
        assert(total(containers_level@, name@) <= initial_quantity);
        let current = match sum_of(&containers_level, name, initial_quantity) {
            Some(current) => current,
            None => initial_quantity,
        };
        ingredients_consumed.set(name, initial_quantity - current);
        position += 1;
    }
    ingredients_consumed
}

} // verus!
