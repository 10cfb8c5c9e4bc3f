//! Scoring: the points a round is worth and the total over the rounds played.

use vstd::prelude::*;
use crate::round::GuessOutcome;

verus! {

/// The points a round starts with.
pub const POINT_POOL: u16 = 5;

/// The points left after a number of wrong guesses: each one costs a point,
/// and the pool never falls below zero.
pub open spec fn pool_after(wrong_guesses: nat) -> nat {
    if wrong_guesses >= POINT_POOL {
        0
    } else {
        (POINT_POOL - wrong_guesses) as nat
    }
}

/// The points left after a number of wrong guesses.
pub fn remaining_points(wrong_guesses: u16) -> (points: u16)
    ensures
        points == pool_after(wrong_guesses as nat),
{
    if wrong_guesses >= POINT_POOL {
        0
    } else {
        POINT_POOL - wrong_guesses
    }
}

/// The points that the end of a round adds to the total: those of a win,
/// nothing otherwise.
pub open spec fn points_awarded(outcome: GuessOutcome) -> nat {
    match outcome {
        GuessOutcome::Correct { points } => points as nat,
        _ => 0,
    }
}

/// The total of the points won over the rounds played.
#[derive(Clone, Copy, Debug, PartialEq, Eq, Structural)]
pub struct ScoreBoard {
    pub total: u64,
}

impl ScoreBoard {
    /// A board with nothing won yet.
    pub fn new() -> (board: ScoreBoard)
        ensures
            board.total == 0,
    {
        ScoreBoard { total: 0 }
    }

    /// Adds what a round ended with: the points of a win, nothing for a loss.
    pub fn record(&mut self, outcome: &GuessOutcome)
        requires
            old(self).total + points_awarded(*outcome) <= u64::MAX,
        ensures
            final(self).total == old(self).total + points_awarded(*outcome),
    {
        match outcome {
            GuessOutcome::Correct { points } => {
                self.total = self.total + *points as u64;
            },
            _ => {},
        }
    }
}

} // verus!
