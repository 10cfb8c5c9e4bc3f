//! Difficulty levels and the range and guess budget that each one stands for.

use vstd::prelude::*;
use vstd::string::*;
use crate::error::GameError;

verus! {

/// The three levels a player can choose from.
#[derive(Clone, Copy, Debug, PartialEq, Eq, Structural)]
pub enum Difficulty {
    Easy,
    Medium,
    Hard,
}

/// The range the secret is drawn from and the number of guesses allowed.
#[derive(Clone, Copy, Debug, PartialEq, Eq, Structural)]
pub struct DifficultyProfile {
    pub min: u16,
    pub max: u16,
    pub guess_budget: u16,
}

impl DifficultyProfile {
    /// The range holds at least two numbers and at least one guess is allowed.
    pub open spec fn valid(&self) -> bool {
        self.min < self.max && self.guess_budget >= 1
    }

    /// `n` lies in the range, both ends included.
    pub open spec fn contains(&self, n: u16) -> bool {
        self.min <= n <= self.max
    }

    /// Tests `valid`.
    pub fn is_valid(&self) -> (ok: bool)
        ensures
            ok == self.valid(),
    {
        self.min < self.max && self.guess_budget >= 1
    }
}

/// The profile table.
pub open spec fn profile_of(difficulty: Difficulty) -> DifficultyProfile {
    match difficulty {
        Difficulty::Easy => DifficultyProfile { min: 1, max: 20, guess_budget: 5 },
        Difficulty::Medium => DifficultyProfile { min: 1, max: 50, guess_budget: 4 },
        Difficulty::Hard => DifficultyProfile { min: 1, max: 100, guess_budget: 3 },
    }
}

/// The token is the single character `c`.
pub open spec fn is_token(token: Seq<char>, c: char) -> bool {
    token.len() == 1 && token[0] == c
}

/// The level that a token selects: `"1"`, `"2"` and `"3"` select a level, every
/// other token selects none.
pub open spec fn difficulty_of(token: Seq<char>) -> Option<Difficulty> {
    if is_token(token, '1') {
        Some(Difficulty::Easy)
    } else if is_token(token, '2') {
        Some(Difficulty::Medium)
    } else if is_token(token, '3') {
        Some(Difficulty::Hard)
    } else {
        None
    }
}

/// The name of a level.
pub open spec fn label_of(difficulty: Difficulty) -> Seq<char> {
    match difficulty {
        Difficulty::Easy => "fácil"@,
        Difficulty::Medium => "médio"@,
        Difficulty::Hard => "difícil"@,
    }
}

/// What `resolve_difficulty` owes for a selection.
pub open spec fn resolved(selection: Seq<char>) -> Result<DifficultyProfile, GameError> {
    match difficulty_of(selection) {
        Some(difficulty) => Ok(profile_of(difficulty)),
        None => Err(GameError::InvalidSelection),
    }
}

impl Difficulty {
    /// Reads a level from its token.
    pub fn from_str(s: &str) -> (parsed: Result<Difficulty, GameError>)
        ensures
            parsed == match difficulty_of(s@) {
                Some(difficulty) => Ok::<Difficulty, GameError>(difficulty),
                None => Err(GameError::InvalidSelection),
            },
    {
        if s.unicode_len() != 1 {
            return Err(GameError::InvalidSelection);
        }
        let c = s.get_char(0);
        if c == '1' {
            Ok(Difficulty::Easy)
        } else if c == '2' {
            Ok(Difficulty::Medium)
        } else if c == '3' {
            Ok(Difficulty::Hard)
        } else {
            Err(GameError::InvalidSelection)
        }
    }

    /// The name of the level.
    pub fn label(&self) -> (name: &'static str)
        ensures
            name@ == label_of(*self),
    {
        match self {
            Difficulty::Easy => "fácil",
            Difficulty::Medium => "médio",
            Difficulty::Hard => "difícil",
        }
    }
}

/// The profile of a level.
pub fn resolve(difficulty: Difficulty) -> (profile: DifficultyProfile)
    ensures
        profile == profile_of(difficulty),
        profile.valid(),
{
    match difficulty {
        Difficulty::Easy => DifficultyProfile { min: 1, max: 20, guess_budget: 5 },
        Difficulty::Medium => DifficultyProfile { min: 1, max: 50, guess_budget: 4 },
        Difficulty::Hard => DifficultyProfile { min: 1, max: 100, guess_budget: 3 },
    }
}

/// The profile that a selection token stands for, or `InvalidSelection` when the
/// token names no level.
pub fn resolve_difficulty(selection: &str) -> (outcome: Result<DifficultyProfile, GameError>)
    ensures
        outcome == resolved(selection@),
{
    match Difficulty::from_str(selection) {
        Ok(difficulty) => Ok(resolve(difficulty)),
        Err(e) => Err(e),
    }
}

/// Resolving is repeatable: whatever two calls return for one selection, they
/// return the same range and the same budget, or both refuse the selection.
pub proof fn lemma_resolve_repeatable(
    selection: Seq<char>,
    first: Result<DifficultyProfile, GameError>,
    second: Result<DifficultyProfile, GameError>,
)
    requires
        first == resolved(selection),
        second == resolved(selection),
    ensures
        first == second,
        first is Ok ==> first->Ok_0.valid(),
{
}

} // verus!
