//! The store of a coffee machine: one container for each ingredient.

use vstd::prelude::*;
use crate::container::Container;
use crate::container::left_after;
use crate::errors::Error;

verus! {

pub const COFFEE: &'static str = "coffee";
pub const HOT_WATER: &'static str = "hot_water";
pub const COCOA: &'static str = "cocoa";
pub const FOAM: &'static str = "foam";
pub const GRAIN_COFFEE: &'static str = "grain_coffee";
pub const MILK: &'static str = "milk";
pub const COLD_WATER: &'static str = "cold_water";

/// What the cold water container holds in a new store.
pub const INITIAL_QUANTITY_WATER: u32 = 1000;

/// Whether `a` and `b` spell the same name.
pub fn same_name(a: &str, b: &str) -> (same: bool)
    ensures
        same == (a@ == b@),
{
    a.to_owned() == b.to_owned()
}

/// The names that a store has a container for.
pub open spec fn is_ingredient(name: Seq<char>) -> bool {
    name == COFFEE@ || name == HOT_WATER@ || name == COCOA@ || name == FOAM@
        || name == GRAIN_COFFEE@ || name == MILK@ || name == COLD_WATER@
}

/// Whether a store has a container for `ingredient`.
pub fn is_an_ingredient(ingredient: &str) -> (answer: bool)
    ensures
        answer == is_ingredient(ingredient@),
{
    same_name(ingredient, COFFEE) || same_name(ingredient, HOT_WATER) || same_name(ingredient, COCOA)
        || same_name(ingredient, FOAM) || same_name(ingredient, GRAIN_COFFEE) || same_name(
        ingredient,
        MILK,
    ) || same_name(ingredient, COLD_WATER)
}

/// Where in the store the container of `name` stands.
pub open spec fn position_of(name: Seq<char>) -> int {
    if name == COFFEE@ {
        0
    } else if name == HOT_WATER@ {
        1
    } else if name == COCOA@ {
        2
    } else if name == FOAM@ {
        3
    } else if name == GRAIN_COFFEE@ {
        4
    } else if name == MILK@ {
        5
    } else {
        6
    }
}

/// What a new store holds that was made with `max_value`: that much of
/// everything, but of cold water, of which it holds
/// `INITIAL_QUANTITY_WATER`.
pub open spec fn new_store(max_value: nat) -> Map<Seq<char>, nat> {
    Map::new(
        |name: Seq<char>| is_ingredient(name),
        |name: Seq<char>|
            if name == COLD_WATER@ {
                INITIAL_QUANTITY_WATER as nat
            } else {
                max_value
            },
    )
}

/// The seven names are seven different names.
pub proof fn lemma_names_differ()
    ensures
        position_of(COFFEE@) == 0,
        position_of(HOT_WATER@) == 1,
        position_of(COCOA@) == 2,
        position_of(FOAM@) == 3,
        position_of(GRAIN_COFFEE@) == 4,
        position_of(MILK@) == 5,
        position_of(COLD_WATER@) == 6,
{
    reveal_strlit("coffee");
    reveal_strlit("hot_water");
    reveal_strlit("cocoa");
    reveal_strlit("foam");
    reveal_strlit("grain_coffee");
    reveal_strlit("milk");
    reveal_strlit("cold_water");
    assert(COFFEE@.len() == 6);
    assert(HOT_WATER@.len() == 9);
    assert(COCOA@.len() == 5);
    assert(FOAM@.len() == 4);
    assert(GRAIN_COFFEE@.len() == 12);
    assert(MILK@.len() == 4);
    assert(COLD_WATER@.len() == 10);
    assert(FOAM@[0] != MILK@[0]);
}

/// `Container::dispense` on the container at `position`.
fn dispense_at(
    all: &mut Vec<Container>,
    position: usize,
    value: u32,
    dispenser_id: Option<u32>,
    coffee_maker_id: u32,
) -> (result: Result<(), Error>)
    requires
        position < old(all)@.len(),
    ensures
        final(all)@.len() == old(all)@.len(),
        forall|i: int| 0 <= i < old(all)@.len() && i != position ==> final(all)@[i] == old(all)@[i],
        final(all)@[position as int].name == old(all)@[position as int].name,
        final(all)@[position as int].quantity == left_after(
            old(all)@[position as int].quantity as nat,
            value as nat,
        ),
        result is Ok <==> old(all)@[position as int].quantity >= value,
        result is Err ==> result == Err::<(), Error>(Error::NotEnoughIngredient),
    no_unwind
{
    all[position].dispense(value, dispenser_id, coffee_maker_id)
}

/// `Container::replenish` on the container at `position`.
fn replenish_at(all: &mut Vec<Container>, position: usize, value: u32, coffee_maker_id: u32) -> (result:
    Result<(), Error>)
    requires
        position < old(all)@.len(),
        old(all)@[position as int].quantity + value <= u32::MAX,
    ensures
        final(all)@.len() == old(all)@.len(),
        forall|i: int| 0 <= i < old(all)@.len() && i != position ==> final(all)@[i] == old(all)@[i],
        final(all)@[position as int].name == old(all)@[position as int].name,
        final(all)@[position as int].quantity == old(all)@[position as int].quantity + value,
        result is Ok,
    no_unwind
{
    all[position].replenish(value, coffee_maker_id)
}

/// The store of one coffee machine. It has a container for each of the
/// seven ingredients, from the first to the last day: none is ever added
/// or taken away.
///
/// A store is one value with one owner, and there is no second handle on
/// it: `copy` makes another store. A program whose threads share a store
/// keeps each container behind a lock of its own and calls `Container`'s
/// functions under that lock.
///
/// Its view is the quantity that it holds of each ingredient.
#[derive(Debug)]
pub struct Containers {
    all: Vec<Container>,
}

impl View for Containers {
    type V = Map<Seq<char>, nat>;

    closed spec fn view(&self) -> Map<Seq<char>, nat> {
        Map::new(
            |name: Seq<char>| is_ingredient(name),
            |name: Seq<char>| self.all@[position_of(name)].quantity as nat,
        )
    }
}

impl Containers {
    #[verifier::type_invariant]
    spec fn well_formed(&self) -> bool {
        &&& self.all@.len() == 7
        &&& forall|name: Seq<char>| #[trigger]
            is_ingredient(name) ==> self.all@[position_of(name)].name@ == name
    }

    /// A store holds the seven ingredients and nothing else, and of each a
    /// quantity that fits a `u32`.
    pub proof fn lemma_view(&self)
        ensures
            forall|name: Seq<char>| self@.dom().contains(name) <==> is_ingredient(name),
            forall|name: Seq<char>| is_ingredient(name) ==> #[trigger] self@[name] <= u32::MAX,
    {
    }

    /// A new store, with `max_value` of every ingredient but cold water.
    pub fn new(max_value: u32) -> (containers: Containers)
        ensures
            containers@ == new_store(max_value as nat),
    {
        let mut all: Vec<Container> = Vec::new();
        all.push(Container::new(COFFEE.to_owned(), max_value));
        all.push(Container::new(HOT_WATER.to_owned(), max_value));
        all.push(Container::new(COCOA.to_owned(), max_value));
        all.push(Container::new(FOAM.to_owned(), max_value));
        all.push(Container::new(GRAIN_COFFEE.to_owned(), max_value));
        all.push(Container::new(MILK.to_owned(), max_value));
        all.push(Container::new(COLD_WATER.to_owned(), INITIAL_QUANTITY_WATER));
        proof {
            lemma_names_differ();
            assert(all@[0].name@ == COFFEE@);
            assert(all@[1].name@ == HOT_WATER@);
            assert(all@[2].name@ == COCOA@);
            assert(all@[3].name@ == FOAM@);
            assert(all@[4].name@ == GRAIN_COFFEE@);
            assert(all@[5].name@ == MILK@);
            assert(all@[6].name@ == COLD_WATER@);
        }
        let containers = Containers { all };
        assert(containers@ =~= new_store(max_value as nat));
        containers
    }

    /// Where in the store the container of `ingredient` stands.
    pub fn find(ingredient: &str) -> (position: usize)
        requires
            is_ingredient(ingredient@),
        ensures
            position == position_of(ingredient@),
            position < 7,
    {
        if same_name(ingredient, COFFEE) {
            0
        } else if same_name(ingredient, HOT_WATER) {
            1
        } else if same_name(ingredient, COCOA) {
            2
        } else if same_name(ingredient, FOAM) {
            3
        } else if same_name(ingredient, GRAIN_COFFEE) {
            4
        } else if same_name(ingredient, MILK) {
            5
        } else {
            6
        }
    }

    /// Takes `value` of `ingredient` out of the store if it holds that
    /// much, and takes nothing otherwise. No other ingredient changes.
    pub fn get_ingredient(
        &mut self,
        ingredient: &String,
        value: u32,
        dispenser_id: Option<u32>,
        coffee_maker_id: u32,
    ) -> (result: Result<(), Error>)
        requires
            is_ingredient(ingredient@),
        ensures
            final(self)@ == old(self)@.insert(
                ingredient@,
                left_after(old(self)@[ingredient@], value as nat),
            ),
            result is Ok <==> old(self)@[ingredient@] >= value,
            result is Err ==> result == Err::<(), Error>(Error::NotEnoughIngredient),
            result is Err ==> final(self)@ == old(self)@,
    {
        proof {
            use_type_invariant(&*self);
        }
        let position = Containers::find(ingredient);
        let result = dispense_at(&mut self.all, position, value, dispenser_id, coffee_maker_id);
        assert(final(self)@ =~= old(self)@.insert(
            ingredient@,
            left_after(old(self)@[ingredient@], value as nat),
        ));
        assert(result is Err ==> final(self)@ =~= old(self)@);
        result
    }

    /// Adds `value` of `ingredient` to the store. No other ingredient
    /// changes.
    pub fn replenish_ingredient(
        &mut self,
        ingredient: &String,
        value: u32,
        coffee_maker_id: u32,
    ) -> (result: Result<(), Error>)
        requires
            is_ingredient(ingredient@),
            old(self)@[ingredient@] + value <= u32::MAX,
        ensures
            final(self)@ == old(self)@.insert(ingredient@, old(self)@[ingredient@] + value as nat),
            result is Ok,
    {
        proof {
            use_type_invariant(&*self);
        }
        let position = Containers::find(ingredient);
        let result = replenish_at(&mut self.all, position, value, coffee_maker_id);
        assert(final(self)@ =~= old(self)@.insert(
            ingredient@,
            old(self)@[ingredient@] + value as nat,
        ));
        result
    }

    /// The container of `ingredient`.
    pub fn container(&self, ingredient: &str) -> (container: &Container)
        requires
            is_ingredient(ingredient@),
        ensures
            container.name@ == ingredient@,
            container.quantity == self@[ingredient@],
    {
        proof {
            use_type_invariant(self);
        }
        &self.all[Containers::find(ingredient)]
    }

    /// The quantity of `ingredient` in the store.
    pub fn get_quantity_of(&self, ingredient: &String) -> (result: Result<u32, Error>)
        requires
            is_ingredient(ingredient@),
        ensures
            result == Ok::<u32, Error>(self@[ingredient@] as u32),
            self@[ingredient@] <= u32::MAX,
    {
        proof {
            use_type_invariant(self);
        }
        let position = Containers::find(ingredient);
        Ok(self.all[position].quantity)
    }
}

impl Containers {
    /// A copy of the store: a second store that holds the same
    /// quantities. What is taken from one of the two is not taken from
    /// the other.
    pub fn copy(&self) -> (containers: Containers)
        ensures
            containers@ == self@,
    {
        proof {
            use_type_invariant(self);
        }
        let mut all: Vec<Container> = Vec::new();
        let mut i: usize = 0;
        while i < 7
            invariant
                self.all@.len() == 7,
                i <= 7,
                all@ == self.all@.subrange(0, i as int),
            decreases 7 - i,
        {
            all.push(self.all[i].clone());
            assert(all@ =~= self.all@.subrange(0, i + 1));
            i += 1;
        }
        assert(all@ =~= self.all@);
        Containers { all }
    }
}

impl Default for Containers {
    /// A store with 100 of every ingredient but cold water.
    fn default() -> (containers: Containers)
        ensures
            containers@ == new_store(100),
    {
        Containers::new(100)
    }
}

} // verus!
