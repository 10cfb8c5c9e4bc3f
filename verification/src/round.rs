//! The guess evaluator: one round from the draw of the secret to a win or to
//! the last guess allowed.

use vstd::prelude::*;
use crate::candidates::{initial_candidates, lemma_initial_candidates_tied, CandidateSpace, Candidates};
use crate::difficulty::DifficultyProfile;
use crate::error::GameError;
use crate::guess::{guess_of, parse_guess};
use crate::hint::{
    hint_holds, hint_step, lemma_hint_is_true, lemma_step_shrinks, lemma_step_stays_tied,
    HintResult,
};
use crate::random::gen_range;
use crate::score::{pool_after, remaining_points};

verus! {

/// Where a round stands.
#[derive(Clone, Copy, Debug, PartialEq, Eq, Structural)]
pub enum RoundStatus {
    /// Guesses are accepted.
    Active,
    /// The secret was guessed.
    Won,
    /// The guess budget is used up and the secret was not guessed.
    Lost,
}

/// What a guess leads to.
#[derive(Clone, Copy, Debug, PartialEq, Eq, Structural)]
pub enum GuessOutcome {
    /// The guess is the secret; the round is worth `points`.
    Correct { points: u16 },
    /// The guess is wrong, `remaining` guesses are left, and `hint` was given.
    Incorrect { remaining: u16, hint: HintResult },
    /// The guess is wrong and it was the last one allowed.
    Exhausted,
}

/// Mathematical model of a round.
pub struct Round {
    pub secret: u16,
    pub profile: DifficultyProfile,
    pub candidates: Candidates,
    pub guesses_used: u16,
    pub last_guess: Option<u16>,
}

impl Round {
    /// The secret lies in the profile's range, no more guesses are used than
    /// the budget allows, and the candidate space is tied to the secret.
    pub open spec fn wf(self) -> bool {
        &&& self.profile.valid()
        &&& self.profile.contains(self.secret)
        &&& self.guesses_used <= self.profile.guess_budget
        &&& self.candidates.tied_to(self.secret, self.profile)
    }

    /// Won once the secret was guessed, lost once the budget is used up without
    /// that, active until then.
    pub open spec fn status(self) -> RoundStatus {
        if self.last_guess == Some(self.secret) {
            RoundStatus::Won
        } else if self.guesses_used >= self.profile.guess_budget {
            RoundStatus::Lost
        } else {
            RoundStatus::Active
        }
    }
}

/// The round before its first guess.
pub open spec fn fresh_round(profile: DifficultyProfile, secret: u16) -> Round {
    Round {
        secret,
        profile,
        candidates: initial_candidates(secret, profile),
        guesses_used: 0,
        last_guess: None,
    }
}

/// What one guess does to an active round. The guess is counted and kept. The
/// secret wins the round, with the points left after the wrong guesses before
/// it. A wrong guess that uses up the budget loses it. Every other wrong guess
/// is answered with one request for a hint.
pub open spec fn guess_step(before: Round, guess: u16, outcome: GuessOutcome, after: Round) -> bool {
    &&& after.secret == before.secret
    &&& after.profile == before.profile
    &&& after.guesses_used == before.guesses_used + 1
    &&& after.last_guess == Some(guess)
    &&& if guess == before.secret {
        &&& outcome == (GuessOutcome::Correct {
            points: pool_after(before.guesses_used as nat) as u16,
        })
        &&& after.candidates == before.candidates
    } else if before.guesses_used + 1 == before.profile.guess_budget {
        &&& outcome == GuessOutcome::Exhausted
        &&& after.candidates == before.candidates
    } else {
        &&& outcome matches GuessOutcome::Incorrect { remaining, hint }
        &&& remaining == before.profile.guess_budget - after.guesses_used
        &&& hint_step(before.candidates, Some(guess), hint, after.candidates)
    }
}

/// A round of the game.
pub struct RoundState {
    secret: u16,
    profile: DifficultyProfile,
    candidate_space: CandidateSpace,
    guesses_used: u16,
    last_guess: Option<u16>,
}

impl View for RoundState {
    type V = Round;

    /// The round as its fields hold it.
    closed spec fn view(&self) -> Round {
        Round {
            secret: self.secret,
            profile: self.profile,
            candidates: self.candidate_space@,
            guesses_used: self.guesses_used,
            last_guess: self.last_guess,
        }
    }
}

impl RoundState {
    /// Every round that exists is well-formed.
    #[verifier::type_invariant]
    pub closed spec fn inv(&self) -> bool {
        self@.wf()
    }

    /// A fresh round with the given secret.
    pub fn new(profile: DifficultyProfile, secret: u16) -> (state: RoundState)
        requires
            profile.valid(),
            profile.contains(secret),
        ensures
            state@ == fresh_round(profile, secret),
            state@.wf(),
    {
        proof {
            lemma_initial_candidates_tied(secret, profile);
        }
        RoundState {
            secret,
            profile,
            candidate_space: CandidateSpace::build(secret, &profile),
            guesses_used: 0,
            last_guess: None,
        }
    }

    /// Takes one guess in an active round: counts it, compares it with the
    /// secret, and answers a wrong guess that leaves a guess over with a hint.
    pub fn submit_guess(&mut self, guess: u16) -> (outcome: GuessOutcome)
        requires
            old(self)@.status() is Active,
        ensures
            guess_step(old(self)@, guess, outcome, final(self)@),
            final(self)@.wf(),
            outcome is Correct <==> final(self)@.status() is Won,
            outcome is Exhausted <==> final(self)@.status() is Lost,
            outcome is Incorrect <==> final(self)@.status() is Active,
    {
        proof {
            use_type_invariant(&*self);
        }
        let wrong_before = self.guesses_used;
        self.guesses_used = self.guesses_used + 1;
        self.last_guess = Some(guess);
        if guess == self.secret {
            GuessOutcome::Correct { points: remaining_points(wrong_before) }
        } else if self.guesses_used == self.profile.guess_budget {
            GuessOutcome::Exhausted
        } else {
            let hint = self.next_hint(Some(guess));
            GuessOutcome::Incorrect { remaining: self.profile.guess_budget - self.guesses_used, hint }
        }
    }

    /// Takes one guess as the player typed it. A token that writes no guess is
    /// refused with `InvalidGuess`, and the round stays as it was.
    pub fn submit_token(&mut self, token: &str) -> (outcome: Result<GuessOutcome, GameError>)
        requires
            old(self)@.status() is Active,
        ensures
            match guess_of(token@) {
                Some(guess) => outcome matches Ok(taken) && guess_step(
                    old(self)@,
                    guess,
                    taken,
                    final(self)@,
                ),
                None => outcome == Err::<GuessOutcome, GameError>(GameError::InvalidGuess)
                    && final(self)@ == old(self)@,
            },
            final(self)@.wf(),
    {
        proof {
            use_type_invariant(&*self);
        }
        match parse_guess(token) {
            Ok(guess) => Ok(self.submit_guess(guess)),
            Err(e) => Err(e),
        }
    }

    /// Asks the hint selector for the next hint. Nothing but the candidate
    /// space changes.
    pub fn next_hint(&mut self, last_guess: Option<u16>) -> (result: HintResult)
        ensures
            hint_step(old(self)@.candidates, last_guess, result, final(self)@.candidates),
            final(self)@ == (Round { candidates: final(self)@.candidates, ..old(self)@ }),
            final(self)@.wf(),
    {
        proof {
            use_type_invariant(&*self);
        }
        // The space is taken out for the call and put back after it, so that
        // the round is whole at every point where the call could fail.
        let mut space = CandidateSpace {
            less_than: Vec::new(),
            greater_than: Vec::new(),
            divisible: Vec::new(),
        };
        core::mem::swap(&mut self.candidate_space, &mut space);
        let result = space.next_hint(last_guess);
        proof {
            lemma_step_stays_tied(
                old(self)@.candidates,
                last_guess,
                result,
                space@,
                self.secret,
                self.profile,
            );
        }
        core::mem::swap(&mut self.candidate_space, &mut space);
        result
    }

    /// The secret of the round.
    pub fn secret(&self) -> (secret: u16)
        ensures
            secret == self@.secret,
            self@.profile.contains(secret),
    {
        proof {
            use_type_invariant(self);
        }
        self.secret
    }

    /// The profile the round is played under.
    pub fn profile(&self) -> (profile: DifficultyProfile)
        ensures
            profile == self@.profile,
            profile.valid(),
    {
        proof {
            use_type_invariant(self);
        }
        self.profile
    }

    /// The numbers that hints can still name.
    pub fn candidate_space(&self) -> (space: &CandidateSpace)
        ensures
            space@ == self@.candidates,
            space@.tied_to(self@.secret, self@.profile),
    {
        proof {
            use_type_invariant(self);
        }
        &self.candidate_space
    }

    /// The number of guesses taken.
    pub fn guesses_used(&self) -> (used: u16)
        ensures
            used == self@.guesses_used,
            used <= self@.profile.guess_budget,
    {
        proof {
            use_type_invariant(self);
        }
        self.guesses_used
    }

    /// The guess taken last.
    pub fn last_guess(&self) -> (guess: Option<u16>)
        ensures
            guess == self@.last_guess,
    {
        self.last_guess
    }

    /// The number of guesses left.
    pub fn remaining_guesses(&self) -> (remaining: u16)
        ensures
            remaining == self@.profile.guess_budget - self@.guesses_used,
    {
        proof {
            use_type_invariant(self);
        }
        self.profile.guess_budget - self.guesses_used
    }

    /// Where the round stands.
    pub fn status(&self) -> (status: RoundStatus)
        ensures
            status == self@.status(),
    {
        match self.last_guess {
            Some(guess) if guess == self.secret => RoundStatus::Won,
            _ => if self.guesses_used >= self.profile.guess_budget {
                RoundStatus::Lost
            } else {
                RoundStatus::Active
            },
        }
    }
}

/// A wrong guess that uses up the budget ends the round as lost, whatever the
/// hints before it were.
pub proof fn lemma_budget_exhausts(before: Round, guess: u16, outcome: GuessOutcome, after: Round)
    requires
        guess_step(before, guess, outcome, after),
        guess != before.secret,
        after.guesses_used == after.profile.guess_budget,
    ensures
        outcome == GuessOutcome::Exhausted,
        after.status() is Lost,
        after.candidates == before.candidates,
{
}

/// A guess leaves a well-formed round well-formed, and ends it exactly where it
/// is the secret or the last one allowed. The hint that answers a wrong guess
/// is true of the secret, and takes numbers out of the candidate space only.
pub proof fn lemma_guess_keeps_round(before: Round, guess: u16, outcome: GuessOutcome, after: Round)
    requires
        before.wf(),
        before.status() is Active,
        guess_step(before, guess, outcome, after),
    ensures
        after.wf(),
        outcome is Correct <==> after.status() is Won,
        outcome is Exhausted <==> after.status() is Lost,
        outcome is Incorrect <==> after.status() is Active,
        outcome matches GuessOutcome::Incorrect { hint, .. } ==> hint_holds(hint, before.secret),
        after.candidates.less_than.len() <= before.candidates.less_than.len(),
        after.candidates.greater_than.len() <= before.candidates.greater_than.len(),
        after.candidates.divisible.len() <= before.candidates.divisible.len(),
{
    if let GuessOutcome::Incorrect { remaining, hint } = outcome {
        lemma_step_stays_tied(
            before.candidates,
            Some(guess),
            hint,
            after.candidates,
            before.secret,
            before.profile,
        );
        lemma_step_shrinks(before.candidates, Some(guess), hint, after.candidates);
        lemma_hint_is_true(
            before.candidates,
            Some(guess),
            hint,
            after.candidates,
            before.secret,
            before.profile,
        );
    }
}

/// Draws the secret of a round from the profile's range and builds the round.
pub fn start_round(profile: DifficultyProfile) -> (state: RoundState)
    requires
        profile.valid(),
    ensures
        profile.contains(state@.secret),
        state@ == fresh_round(profile, state@.secret),
        state@.wf(),
{
    let mut rng = rand::thread_rng();
    let drawn = gen_range(&mut rng, profile.min as usize, profile.max as usize + 1);
    RoundState::new(profile, drawn as u16)
}

} // verus!
