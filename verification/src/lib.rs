//! Engine of a number-guessing game: a secret number is drawn from the range of
//! the chosen difficulty, the player guesses, and every wrong guess is answered
//! with a hint that narrows the numbers still in play.

pub mod candidates;
pub mod difficulty;
pub mod error;
pub mod guess;
pub mod hint;
pub mod random;
pub mod round;
pub mod score;
pub mod text;
