//! What the presenter and the alerter of a fleet decide: when statistics
//! are shown, and for which containers an alert is.
//!
//! The alerts are on the containers that have no handler to fill them:
//! grain coffee, milk and cocoa. Each of the three has an alert flag,
//! which is raised when something was taken out of its container. The
//! alerter then looks at the level once and lowers the flag.

use vstd::prelude::*;
use crate::coffee_maker::three_set;
use crate::containers::is_ingredient;
use crate::containers::lemma_names_differ;
use crate::containers::same_name;
use crate::containers::COCOA;
use crate::containers::GRAIN_COFFEE;
use crate::containers::MILK;
use crate::dispensers::Attempt;
use crate::stat_maker::Quantities;

verus! {

/// What every machine holds of each ingredient but cold water when the
/// program starts it.
pub const INITIAL_QUANTITY: u32 = 100;

/// The level of a container at which an alert is shown.
pub const VALUE_TO_ALERT: u32 = 50;

/// The alert flag of `name`, if it has one.
pub open spec fn alert_index_of(name: Seq<char>) -> Option<u32> {
    if name == GRAIN_COFFEE@ {
        Some(0u32)
    } else if name == MILK@ {
        Some(1u32)
    } else if name == COCOA@ {
        Some(2u32)
    } else {
        None
    }
}

/// The alert flag of `ingredient`, if it has one: the place at which
/// `CoffeeMaker::get_values` names it.
pub fn alert_index(ingredient: &str) -> (idx: Option<u32>)
    ensures
        idx == alert_index_of(ingredient@),
{
    if same_name(ingredient, GRAIN_COFFEE) {
        Some(0)
    } else if same_name(ingredient, MILK) {
        Some(1)
    } else if same_name(ingredient, COCOA) {
        Some(2)
    } else {
        None
    }
}

/// The alert flag that goes up after `attempt` at `ingredient`: its own,
/// if it has one and something was taken out of its container.
pub fn alert_after(ingredient: &str, attempt: Attempt) -> (idx: Option<u32>)
    ensures
        idx == match attempt {
            Attempt::Got { .. } => alert_index_of(ingredient@),
            Attempt::Missing => None,
        },
{
    match attempt {
        Attempt::Got { .. } => alert_index(ingredient),
        Attempt::Missing => None,
    }
}

/// The ingredients whose level is watched for an alert, each at the
/// place of its alert flag.
pub fn watched_ingredients() -> (values: Vec<String>)
    ensures
        values@.len() == 3,
        values@[0]@ == GRAIN_COFFEE@,
        values@[1]@ == MILK@,
        values@[2]@ == COCOA@,
        forall|i: int| 0 <= i < 3 ==> alert_index_of(#[trigger] values@[i]@) == Some(i as u32),
{
    proof {
        lemma_names_differ();
    }
    let mut values: Vec<String> = Vec::new();
    values.push(GRAIN_COFFEE.to_owned());
    values.push(MILK.to_owned());
    values.push(COCOA.to_owned());
    values
}

/// What `machines` machines held between them of each ingredient but
/// cold water when the program started them, if a `u32` holds it.
pub fn initial_quantity_of(machines: usize) -> (total: Option<u32>)
    ensures
        match total {
            Some(total) => total == machines * INITIAL_QUANTITY,
            None => machines * INITIAL_QUANTITY > u32::MAX,
        },
{
    if machines <= (u32::MAX / INITIAL_QUANTITY) as usize {
        assert(machines * INITIAL_QUANTITY <= u32::MAX) by (nonlinear_arith)
            requires
                machines <= u32::MAX / INITIAL_QUANTITY,
                INITIAL_QUANTITY == 100,
        ;
        Some(machines as u32 * INITIAL_QUANTITY)
    } else {
        assert(machines * INITIAL_QUANTITY > u32::MAX) by (nonlinear_arith)
            requires
                machines > u32::MAX / INITIAL_QUANTITY,
                INITIAL_QUANTITY == 100,
        ;
        None
    }
}

/// Whether the presenter has to wait before it shows statistics: it has
/// as long as no order has been processed.
pub fn has_to_wait(orders_processed: i32) -> (answer: bool)
    ensures
        answer == (orders_processed == 0),
{
    orders_processed == 0
}

/// Whether the alerter has to go on sleeping: it has as long as every
/// alert flag is down.
pub fn nothing_to_alert(has_to_alert: &Vec<bool>) -> (answer: bool)
    ensures
        answer == forall|i: int| 0 <= i < has_to_alert@.len() ==> !has_to_alert@[i],
{
    let mut i: usize = 0;
    while i < has_to_alert.len()
        invariant
            i <= has_to_alert@.len(),
            forall|j: int| 0 <= j < i ==> !has_to_alert@[j],
        decreases has_to_alert@.len() - i,
    {
        if has_to_alert[i] {
            return false;
        }
        i += 1;
    }
    true
}

/// Says for each of the three alert flags whether an alert is to be
/// shown for the ingredient that `values` names at its place: it is if
/// the flag is up and `containers_level`, which is what the store holds,
/// has `VALUE_TO_ALERT` for the ingredient. The three flags are lowered.
pub fn show_alert_of_capacity(
    containers_level: &Quantities,
    coffee_maker_id: u32,
    has_to_alert: &mut Vec<bool>,
    values: &Vec<String>,
) -> (alerts: Vec<bool>)
    requires
        old(has_to_alert)@.len() >= 3,
        values@.len() >= 3,
        forall|i: int| 0 <= i < 3 ==> is_ingredient(#[trigger] values@[i]@),
    ensures
        alerts@.len() == 3,
        forall|i: int|
            0 <= i < 3 ==> #[trigger] alerts@[i] == (old(has_to_alert)@[i] && containers_level@[values@[i]@]
                == VALUE_TO_ALERT),
        final(has_to_alert)@ == three_set(old(has_to_alert)@, false),
{
    let mut alerts: Vec<bool> = Vec::new();
    let mut i: usize = 0;
    while i < 3
        invariant
            i <= 3,
            alerts@.len() == i,
            values@.len() >= 3,
            has_to_alert@.len() == old(has_to_alert)@.len(),
            has_to_alert@.len() >= 3,
            forall|j: int| 0 <= j < 3 ==> is_ingredient(#[trigger] values@[j]@),
            forall|j: int|
                0 <= j < i ==> #[trigger] alerts@[j] == (old(has_to_alert)@[j] && containers_level@[values@[j]@]
                    == VALUE_TO_ALERT),
            forall|j: int| 0 <= j < i ==> !#[trigger] has_to_alert@[j],
            forall|j: int|
                i <= j < has_to_alert@.len() ==> #[trigger] has_to_alert@[j] == old(has_to_alert)@[j],
        decreases 3 - i,
    {
        let mut alert = false;
        if has_to_alert[i] {
            assert(is_ingredient(values@[i as int]@));
            alert = containers_level.get(&values[i]) == VALUE_TO_ALERT;
            has_to_alert[i] = false;
        }
        alerts.push(alert);
        i += 1;
    }
    assert(has_to_alert@ =~= three_set(old(has_to_alert)@, false));
    alerts
}

} // verus!
