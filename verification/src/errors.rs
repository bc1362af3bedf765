//! What can go wrong in a coffee machine.

use vstd::prelude::*;

verus! {

/// The ways in which a request to a coffee machine fails.
///
/// The library itself only ever returns `NotFileInput`,
/// `NotEnoughIngredient` and `NoMoreOrders`. The other variants are for the
/// program that reads the orders and shares the machine's state between
/// threads: a file that is missing or malformed, and a lock whose earlier
/// holder failed.
#[derive(Debug, Clone, Copy, PartialEq, Eq, Structural)]
pub enum Error {
    NotFileInput,
    FileNotFound,
    WrongFileFormat,
    NotEnoughIngredient,
    NoMoreOrders,
    CantReadOrdersLock,
    CantWriteOrdersLock,
    CantWriteContainerLock,
    CantReadContainerLock,
    CantHaveOrdersProcessedLock,
    NoMoreIngredient,
}

} // verus!
