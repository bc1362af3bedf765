//! Where the orders come from: the name of the file that holds them.

use vstd::prelude::*;
use crate::errors::Error;

verus! {

/// The name of the file that holds the orders.
#[derive(Debug)]
pub struct InputController {
    pub filename: String,
}

impl InputController {
    /// The controller for the file that the user named, or `NotFileInput`
    /// if the user named none.
    pub fn new(input: Option<String>) -> (result: Result<InputController, Error>)
        ensures
            match input {
                Some(file) => result is Ok && result->Ok_0.filename == file,
                None => result == Err::<InputController, Error>(Error::NotFileInput),
            },
    {
        let file = match input {
            Some(file) => file,
            None => {
                return Err(Error::NotFileInput);
            },
        };
        Ok(InputController { filename: file })
    }
}

impl Clone for InputController {
    fn clone(&self) -> (controller: InputController)
        ensures
            controller == *self,
    {
        InputController { filename: self.filename.clone() }
    }
}

} // verus!
