//! What the engine refuses.

use vstd::prelude::*;

verus! {

/// An input that the engine does not accept. The caller asks again.
#[derive(Clone, Copy, Debug, PartialEq, Eq, Structural)]
pub enum GameError {
    /// The difficulty token names none of the three levels.
    InvalidSelection,
    /// The guess token is no number that fits the guess type.
    InvalidGuess,
}

} // verus!
