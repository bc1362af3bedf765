//! Figures on a fleet of coffee machines: what each of them holds, and
//! what all of them together have used up.

use vstd::prelude::*;
use crate::coffee_maker::CoffeeMaker;
use crate::containers::is_ingredient;
use crate::containers::lemma_names_differ;
use crate::containers::position_of;
use crate::containers::same_name;
use crate::containers::Containers;
use crate::containers::COCOA;
use crate::containers::COFFEE;
use crate::containers::COLD_WATER;
use crate::containers::FOAM;
use crate::containers::GRAIN_COFFEE;
use crate::containers::HOT_WATER;
use crate::containers::INITIAL_QUANTITY_WATER;
use crate::containers::MILK;

verus! {

/// A quantity for each of the seven ingredients.
#[derive(Debug)]
pub struct Quantities {
    values: Vec<u32>,
}

impl View for Quantities {
    type V = Map<Seq<char>, nat>;

    closed spec fn view(&self) -> Map<Seq<char>, nat> {
        Map::new(
            |name: Seq<char>| is_ingredient(name),
            |name: Seq<char>| self.values@[position_of(name)] as nat,
        )
    }
}

/// The name of the ingredient that stands at `position` in a store.
pub fn name_at(position: usize) -> (name: &'static str)
    requires
        position < 7,
    ensures
        is_ingredient(name@),
        position_of(name@) == position,
{
    proof {
        lemma_names_differ();
    }
    if position == 0 {
        COFFEE
    } else if position == 1 {
        HOT_WATER
    } else if position == 2 {
        COCOA
    } else if position == 3 {
        FOAM
    } else if position == 4 {
        GRAIN_COFFEE
    } else if position == 5 {
        MILK
    } else {
        COLD_WATER
    }
}

impl Quantities {
    #[verifier::type_invariant]
    spec fn well_formed(&self) -> bool {
        self.values@.len() == 7
    }

    /// There is a quantity for each of the seven ingredients and for
    /// nothing else, and each fits a `u32`.
    pub proof fn lemma_view(&self)
        ensures
            forall|name: Seq<char>| self@.dom().contains(name) <==> is_ingredient(name),
            forall|name: Seq<char>| is_ingredient(name) ==> #[trigger] self@[name] <= u32::MAX,
    {
    }

    /// `value` for every ingredient.
    pub fn new(value: u32) -> (quantities: Quantities)
        ensures
            forall|name: Seq<char>| is_ingredient(name) ==> #[trigger] quantities@[name] == value,
    {
        let mut values: Vec<u32> = Vec::new();
        let mut position: usize = 0;
        while position < 7
            invariant
                position <= 7,
                values@.len() == position,
                forall|i: int| 0 <= i < position ==> values@[i] == value,
            decreases 7 - position,
        {
            values.push(value);
            position += 1;
        }
        Quantities { values }
    }

    /// The quantity for `ingredient`.
    pub fn get(&self, ingredient: &str) -> (value: u32)
        requires
            is_ingredient(ingredient@),
        ensures
            value == self@[ingredient@],
    {
        proof {
            use_type_invariant(self);
        }
        self.values[Containers::find(ingredient)]
    }

    /// Makes `value` the quantity for `ingredient`, and leaves the others
    /// as they are.
    pub fn set(&mut self, ingredient: &str, value: u32)
        requires
            is_ingredient(ingredient@),
        ensures
            final(self)@ == old(self)@.insert(ingredient@, value as nat),
    {
        proof {
            use_type_invariant(&*self);
        }
        let position = Containers::find(ingredient);
        self.values[position] = value;
        assert(final(self)@ =~= old(self)@.insert(ingredient@, value as nat));
    }
}

impl Clone for Quantities {
    fn clone(&self) -> (quantities: Quantities)
        ensures
            quantities@ == self@,
    {
        proof {
            use_type_invariant(self);
        }
        let quantities = Quantities { values: self.values.clone() };
        assert(quantities.values@ =~= self.values@);
        quantities
    }
}

/// The sum of what the first `upto` machines hold of `name`.
pub open spec fn total_upto(levels: Seq<Quantities>, name: Seq<char>, upto: nat) -> nat
    decreases upto,
{
    if upto == 0 {
        0
    } else {
        total_upto(levels, name, (upto - 1) as nat) + levels[upto - 1]@[name]
    }
}

/// The sum of what the machines hold of `name`.
pub open spec fn total(levels: Seq<Quantities>, name: Seq<char>) -> nat {
    total_upto(levels, name, levels.len())
}

/// What `machines` machines held of `name` between them when they were
/// new: `initial_quantity`, but of cold water `INITIAL_QUANTITY_WATER` for
/// each machine.
pub open spec fn initial_of(name: Seq<char>, machines: nat, initial_quantity: nat) -> nat {
    if name == COLD_WATER@ {
        machines * INITIAL_QUANTITY_WATER as nat
    } else {
        initial_quantity
    }
}

/// What the machines have used of `name`: what they held of it between
/// them when they were new, less what they hold now.
pub open spec fn drawn(levels: Seq<Quantities>, name: Seq<char>, initial_quantity: nat) -> int {
    initial_of(name, levels.len(), initial_quantity) - total(levels, name)
}

/// A sum over some of the machines is at most the sum over more of them.
pub proof fn lemma_total_grows(levels: Seq<Quantities>, name: Seq<char>, fewer: nat, more: nat)
    requires
        fewer <= more,
    ensures
        total_upto(levels, name, fewer) <= total_upto(levels, name, more),
    decreases more,
{
    if fewer < more {
        lemma_total_grows(levels, name, fewer, (more - 1) as nat);
    }
}

/// What a store holds of each ingredient.
pub fn get_quantity_of(containers: &Containers) -> (quantities: Quantities)
    ensures
        quantities@ == containers@,
{
    let mut quantities = Quantities::new(0);
    let mut position: usize = 0;
    while position < 7
        invariant
            position <= 7,
            forall|name: Seq<char>|
                is_ingredient(name) && position_of(name) < position ==> #[trigger] quantities@[name]
                    == containers@[name],
        decreases 7 - position,
    {
        let name = name_at(position);
        let value = match containers.get_quantity_of(&name.to_owned()) {
            Ok(value) => value,
            Err(_) => 0,
        };
        quantities.set(name, value);
        position += 1;
    }
    proof {
        quantities.lemma_view();
        containers.lemma_view();
        assert(quantities@ =~= containers@);
    }
    quantities
}

/// What each machine holds of each ingredient, machine by machine.
pub fn get_containers_info(coffee_makers: Vec<CoffeeMaker>) -> (info: Vec<Quantities>)
    ensures
        info@.len() == coffee_makers@.len(),
        forall|i: int|
            0 <= i < info@.len() ==> (#[trigger] info@[i])@ == coffee_makers@[i].handler.containers@,
{
    let mut info: Vec<Quantities> = Vec::new();
    let mut i: usize = 0;
    while i < coffee_makers.len()
        invariant
            i <= coffee_makers@.len(),
            info@.len() == i,
            forall|j: int|
                0 <= j < i ==> (#[trigger] info@[j])@ == coffee_makers@[j].handler.containers@,
        decreases coffee_makers@.len() - i,
    {
        info.push(get_quantity_of(&coffee_makers[i].handler.containers));
        i += 1;
    }
    info
}

/// What has left the containers of `ingredient`, of which `machines`
/// machines hold `current` between them.
pub fn get_quantity_consumed(ingredient: &str, current: u32, machines: usize, initial_quantity: u32) -> (quantity:
    u32)
    requires
        ingredient@ == COLD_WATER@ ==> machines * INITIAL_QUANTITY_WATER <= u32::MAX,
        current <= initial_of(ingredient@, machines as nat, initial_quantity as nat),
    ensures
        quantity == initial_of(ingredient@, machines as nat, initial_quantity as nat) - current,
{
    if same_name(ingredient, COLD_WATER) {
        assert(machines <= u32::MAX) by (nonlinear_arith)
            requires
                machines * INITIAL_QUANTITY_WATER <= u32::MAX,
                INITIAL_QUANTITY_WATER == 1000,
        ;
        (machines as u32 * INITIAL_QUANTITY_WATER) - current
    } else {
        initial_quantity - current
    }
}

/// Whether the figures add up: the machines hold between them no more
/// of any ingredient than they held when they were new.
pub open spec fn accountable(levels: Seq<Quantities>, initial_quantity: nat) -> bool {
    &&& levels.len() * INITIAL_QUANTITY_WATER <= u32::MAX
    &&& forall|name: Seq<char>|
        is_ingredient(name) ==> #[trigger] drawn(levels, name, initial_quantity) >= 0
}

/// The sum of what the machines hold of `ingredient`, if it is `limit` at
/// most.
pub fn sum_of(containers_level: &Vec<Quantities>, ingredient: &str, limit: u32) -> (sum: Option<u32>)
    requires
        is_ingredient(ingredient@),
    ensures
        match sum {
            Some(value) => value == total(containers_level@, ingredient@) && value <= limit,
            None => total(containers_level@, ingredient@) > limit,
        },
{
    let mut current: u32 = 0;
    let mut i: usize = 0;
    while i < containers_level.len()
        invariant
            i <= containers_level@.len(),
            is_ingredient(ingredient@),
            current == total_upto(containers_level@, ingredient@, i as nat),
            current <= limit,
        decreases containers_level@.len() - i,
    {
        let value = containers_level[i].get(ingredient);
        if value > limit - current {
            proof {
                lemma_total_grows(
                    containers_level@,
                    ingredient@,
                    (i + 1) as nat,
                    containers_level@.len(),
                );
            }
            return None;
        }
        current += value;
        i += 1;
    }
    Some(current)
}

/// What has left the containers of `ingredient`, if the machines hold no
/// more of it between them than they held when they were new.
fn drawn_of(containers_level: &Vec<Quantities>, ingredient: &str, initial_quantity: u32) -> (quantity:
    Option<u32>)
    requires
        is_ingredient(ingredient@),
        containers_level@.len() * INITIAL_QUANTITY_WATER <= u32::MAX,
    ensures
        match quantity {
            Some(value) => value == drawn(containers_level@, ingredient@, initial_quantity as nat),
            None => drawn(containers_level@, ingredient@, initial_quantity as nat) < 0,
        },
{
    let machines = containers_level.len();
    let limit = if same_name(ingredient, COLD_WATER) {
        assert(machines <= u32::MAX) by (nonlinear_arith)
            requires
                machines * INITIAL_QUANTITY_WATER <= u32::MAX,
                INITIAL_QUANTITY_WATER == 1000,
        ;
        machines as u32 * INITIAL_QUANTITY_WATER
    } else {
        initial_quantity
    };
    match sum_of(containers_level, ingredient, limit) {
        Some(current) => Some(get_quantity_consumed(ingredient, current, machines, initial_quantity)),
        None => None,
    }
}

/// Whether the figures add up, so that `get_ingredients_consumed` can be
/// asked for them.
pub fn is_accountable(containers_level: &Vec<Quantities>, initial_quantity: u32) -> (answer: bool)
    ensures
        answer == accountable(containers_level@, initial_quantity as nat),
{
    if containers_level.len() > (u32::MAX / INITIAL_QUANTITY_WATER) as usize {
        return false;
    }
    let mut position: usize = 0;
    while position < 7
        invariant
            position <= 7,
            containers_level@.len() * INITIAL_QUANTITY_WATER <= u32::MAX,
            forall|name: Seq<char>|
                is_ingredient(name) && position_of(name) < position ==> #[trigger] drawn(
                    containers_level@,
                    name,
                    initial_quantity as nat,
                ) >= 0,
        decreases 7 - position,
    {
        let name = name_at(position);
        match drawn_of(containers_level, name, initial_quantity) {
            Some(_) => {},
            None => {
                return false;
            },
        }
        position += 1;
    }
    true
}

/// What the machines have used of each ingredient: what they held of it
/// between them when they were new, less what they hold now. Here
/// `containers_level` is what each of them holds now, and
/// `initial_quantity` is what they held between them of each ingredient
/// but cold water when they were new.
pub fn get_ingredients_consumed(containers_level: Vec<Quantities>, initial_quantity: u32) -> (ingredients_consumed:
    Quantities)
    requires
        accountable(containers_level@, initial_quantity as nat),
    ensures
        forall|name: Seq<char>|
            is_ingredient(name) ==> #[trigger] ingredients_consumed@[name] == drawn(
                containers_level@,
                name,
                initial_quantity as nat,
            ),
{
    let mut ingredients_consumed = Quantities::new(0);
    let mut position: usize = 0;
    while position < 7
        invariant
            position <= 7,
            accountable(containers_level@, initial_quantity as nat),
            forall|name: Seq<char>|
                is_ingredient(name) && position_of(name) < position
                    ==> #[trigger] ingredients_consumed@[name] == drawn(
                    containers_level@,
                    name,
                    initial_quantity as nat,
                ),
        decreases 7 - position,
    {
        let name = name_at(position);
        assert(drawn(containers_level@, name@, initial_quantity as nat) >= 0);
        let quantity = match drawn_of(&containers_level, name, initial_quantity) {
            Some(quantity) => quantity,
            None => 0,
        };
        ingredients_consumed.set(name, quantity);
        position += 1;
    }
    ingredients_consumed
}

} // verus!
