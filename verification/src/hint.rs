//! The hint selector: which categories can still narrow the candidate space,
//! and what a hint of each category takes out of it.

use vstd::prelude::*;
use vstd::string::*;
use crate::candidates::{divides, CandidateSpace, Candidates};
use crate::difficulty::{is_token, DifficultyProfile};
use crate::text::{format_hint, hint_text};
use crate::random::{choose_hint, gen_range};

verus! {

/// A class of information about the secret.
#[derive(Clone, Copy, Debug, PartialEq, Eq, Structural)]
pub enum Hint {
    /// The secret is less than the value told.
    LessThan,
    /// The secret is greater than the value told.
    GreaterThan,
    /// The secret is divisible by the value told.
    Divisible,
}

/// What a request for a hint gives.
#[derive(Clone, Copy, Debug, PartialEq, Eq, Structural)]
pub enum HintResult {
    /// The secret stands in relation `category` to `value`.
    Hint { category: Hint, value: u16 },
    /// No category can narrow the candidate space any further.
    NoHintAvailable,
}

/// The category that a token names: `"1"`, `"2"` and `"4"` name one, every
/// other token names none.
pub open spec fn hint_of(token: Seq<char>) -> Option<Hint> {
    if is_token(token, '1') {
        Some(Hint::LessThan)
    } else if is_token(token, '2') {
        Some(Hint::GreaterThan)
    } else if is_token(token, '4') {
        Some(Hint::Divisible)
    } else {
        None
    }
}

/// The words that name a category's relation in a sentence.
pub open spec fn relation_of(hint: Hint) -> Seq<char> {
    match hint {
        Hint::LessThan => "less than"@,
        Hint::GreaterThan => "greater than"@,
        Hint::Divisible => "divisible by"@,
    }
}

impl Hint {
    /// Reads a category from its token.
    pub fn from_str(s: &str) -> (parsed: Result<Hint, ()>)
        ensures
            parsed == match hint_of(s@) {
                Some(hint) => Ok::<Hint, ()>(hint),
                None => Err(()),
            },
    {
        if s.unicode_len() != 1 {
            return Err(());
        }
        let c = s.get_char(0);
        if c == '1' {
            Ok(Hint::LessThan)
        } else if c == '2' {
            Ok(Hint::GreaterThan)
        } else if c == '4' {
            Ok(Hint::Divisible)
        } else {
            Err(())
        }
    }

    /// The words that name the category's relation in a sentence.
    pub fn relation(&self) -> (words: &'static str)
        ensures
            words@ == relation_of(*self),
    {
        match self {
            Hint::LessThan => "less than",
            Hint::GreaterThan => "greater than",
            Hint::Divisible => "divisible by",
        }
    }
}

/// The collection that a hint of the category draws its value from.
pub open spec fn pool_of(candidates: Candidates, hint: Hint) -> Seq<u16> {
    match hint {
        Hint::LessThan => candidates.less_than,
        Hint::GreaterThan => candidates.greater_than,
        Hint::Divisible => candidates.divisible,
    }
}

/// A category is offered only while it can still narrow the space.
pub open spec fn eligible(candidates: Candidates, hint: Hint) -> bool {
    match hint {
        Hint::LessThan => candidates.less_than.len() > 1,
        Hint::GreaterThan => candidates.greater_than.len() > 1,
        Hint::Divisible => candidates.divisible.len() > 0,
    }
}

/// No category is eligible.
pub open spec fn exhausted(candidates: Candidates) -> bool {
    &&& candidates.less_than.len() <= 1
    &&& candidates.greater_than.len() <= 1
    &&& candidates.divisible.len() == 0
}

/// The eligible categories, in the order in which they are offered.
pub open spec fn eligible_hints(candidates: Candidates) -> Seq<Hint> {
    (if eligible(candidates, Hint::LessThan) {
        seq![Hint::LessThan]
    } else {
        Seq::<Hint>::empty()
    }) + (if eligible(candidates, Hint::GreaterThan) {
        seq![Hint::GreaterThan]
    } else {
        Seq::<Hint>::empty()
    }) + (if eligible(candidates, Hint::Divisible) {
        seq![Hint::Divisible]
    } else {
        Seq::<Hint>::empty()
    })
}

/// Where a less-than hint cuts: at the first position of the last guess where
/// the guess is one of the numbers, else at the position of the value drawn.
pub open spec fn cut_point(less_than: Seq<u16>, hint_index: int, last_guess: Option<u16>) -> int {
    match last_guess {
        Some(guess) => match less_than.index_of_first(guess) {
            Some(position) => position,
            None => hint_index,
        },
        None => hint_index,
    }
}

/// The candidate space after a hint of the category that drew the value at
/// `hint_index`.
pub open spec fn narrowed(
    candidates: Candidates,
    hint: Hint,
    hint_index: int,
    last_guess: Option<u16>,
) -> Candidates {
    match hint {
        Hint::LessThan => Candidates {
            less_than: candidates.less_than.take(
                cut_point(candidates.less_than, hint_index, last_guess),
            ),
            ..candidates
        },
        Hint::GreaterThan => Candidates {
            greater_than: candidates.greater_than.skip(hint_index + 1),
            ..candidates
        },
        Hint::Divisible => Candidates { divisible: Seq::<u16>::empty(), ..candidates },
    }
}

/// What one request for a hint may do. Where no category is eligible it gives
/// `NoHintAvailable` and leaves the space as it is. Otherwise it names an
/// eligible category and a value at some position of that category's
/// collection, and narrows the space by that draw.
pub open spec fn hint_step(
    before: Candidates,
    last_guess: Option<u16>,
    result: HintResult,
    after: Candidates,
) -> bool {
    match result {
        HintResult::NoHintAvailable => exhausted(before) && after == before,
        HintResult::Hint { category, value } => {
            &&& eligible(before, category)
            &&& exists|hint_index: int|
                0 <= hint_index < pool_of(before, category).len() && value == #[trigger] pool_of(
                    before,
                    category,
                )[hint_index] && after == narrowed(before, category, hint_index, last_guess)
        },
    }
}

/// The first position of `wanted` in `nums`.
fn position(nums: &Vec<u16>, wanted: u16) -> (found: Option<usize>)
    ensures
        match found {
            Some(index) => nums@.index_of_first(wanted) == Some(index as int),
            None => nums@.index_of_first(wanted) is None,
        },
{
    let mut index: usize = 0;
    while index < nums.len()
        invariant
            index <= nums.len(),
            forall|j: int| 0 <= j < index ==> nums@[j] != wanted,
        decreases nums.len() - index,
    {
        if nums[index] == wanted {
            proof {
                nums@.index_of_first_ensures(wanted);
            }
            return Some(index);
        }
        index = index + 1;
    }
    proof {
        nums@.index_of_first_ensures(wanted);
    }
    None
}

/// A less-than hint: reveals the number at `hint_index` and removes the number
/// at the cut point and every number after it.
pub fn less_than_hint(
    last_guess: Option<u16>,
    hint_index: usize,
    less_than_nums: &mut Vec<u16>,
) -> (actual_hint: u16)
    requires
        hint_index < old(less_than_nums)@.len(),
    ensures
        actual_hint == old(less_than_nums)@[hint_index as int],
        final(less_than_nums)@ == old(less_than_nums)@.take(
            cut_point(old(less_than_nums)@, hint_index as int, last_guess),
        ),
{
    let actual_hint = less_than_nums[hint_index];
    let found = match last_guess {
        Some(guess) => position(less_than_nums, guess),
        None => None,
    };
    let cut = match found {
        Some(index) => index,
        None => hint_index,
    };
    proof {
        // The first position of a number lies within the collection.
        if last_guess is Some {
            less_than_nums@.index_of_first_ensures(last_guess->Some_0);
        }
    }
    less_than_nums.truncate(cut);
    actual_hint
}

/// A greater-than hint: reveals the number at `hint_index` and removes it and
/// every number before it.
pub fn greater_than_hint(hint_index: usize, greater_than_nums: &mut Vec<u16>) -> (actual_hint: u16)
    requires
        hint_index < old(greater_than_nums)@.len(),
    ensures
        actual_hint == old(greater_than_nums)@[hint_index as int],
        final(greater_than_nums)@ == old(greater_than_nums)@.skip(hint_index + 1),
{
    let actual_hint = greater_than_nums[hint_index];
    assert(hint_index < greater_than_nums.len());
    let rest = greater_than_nums.split_off(hint_index + 1);
    *greater_than_nums = rest;
    actual_hint
}

/// A divisibility hint: reveals the divisor at `hint_index` and removes every
/// divisor.
pub fn divisible_hint(hint_index: usize, divisible_nums: &mut Vec<u16>) -> (actual_hint: u16)
    requires
        hint_index < old(divisible_nums)@.len(),
    ensures
        actual_hint == old(divisible_nums)@[hint_index as int],
        final(divisible_nums)@ == Seq::<u16>::empty(),
{
    let actual_hint = divisible_nums[hint_index];
    divisible_nums.clear();
    actual_hint
}

impl CandidateSpace {
    /// The categories that can still narrow the space.
    pub fn eligible_hints(&self) -> (hint_vec: Vec<Hint>)
        ensures
            hint_vec@ == eligible_hints(self@),
    {
        let mut hint_vec: Vec<Hint> = Vec::new();
        if self.less_than.len() > 1 {
            hint_vec.push(Hint::LessThan);
        }
        if self.greater_than.len() > 1 {
            hint_vec.push(Hint::GreaterThan);
        }
        if self.divisible.len() > 0 {
            hint_vec.push(Hint::Divisible);
        }
        assert(hint_vec@ =~= eligible_hints(self@));
        hint_vec
    }

    /// Gives the hint of category `choice` that draws the value at
    /// `hint_index`, and narrows the space by it.
    pub fn apply_hint(&mut self, choice: Hint, hint_index: usize, last_guess: Option<u16>) -> (value:
        u16)
        requires
            hint_index < pool_of(old(self)@, choice).len(),
        ensures
            value == pool_of(old(self)@, choice)[hint_index as int],
            final(self)@ == narrowed(old(self)@, choice, hint_index as int, last_guess),
    {
        match choice {
            Hint::LessThan => less_than_hint(last_guess, hint_index, &mut self.less_than),
            Hint::GreaterThan => greater_than_hint(hint_index, &mut self.greater_than),
            Hint::Divisible => divisible_hint(hint_index, &mut self.divisible),
        }
    }

    /// Picks one of the eligible categories at random, draws a value from its
    /// collection at random, and narrows the space by that hint. Where no
    /// category is eligible the space stays as it is.
    pub fn next_hint(&mut self, last_guess: Option<u16>) -> (result: HintResult)
        ensures
            hint_step(old(self)@, last_guess, result, final(self)@),
            result is NoHintAvailable <==> exhausted(old(self)@),
            final(self)@.less_than.len() <= old(self)@.less_than.len(),
            final(self)@.greater_than.len() <= old(self)@.greater_than.len(),
            final(self)@.divisible.len() <= old(self)@.divisible.len(),
            result matches HintResult::Hint { category: Hint::Divisible, .. }
                ==> final(self)@.divisible.len() == 0,
    {
        let hint_vec = self.eligible_hints();
        if hint_vec.len() == 0 {
            return HintResult::NoHintAvailable;
        }
        let mut rng = rand::thread_rng();
        match choose_hint(&hint_vec, &mut rng) {
            Some(choice) => {
                let drawn_from = match choice {
                    Hint::LessThan => self.less_than.len(),
                    Hint::GreaterThan => self.greater_than.len(),
                    Hint::Divisible => self.divisible.len(),
                };
                let hint_index = gen_range(&mut rng, 0, drawn_from);
                let value = self.apply_hint(choice, hint_index, last_guess);
                proof {
                    lemma_narrowed_shrinks(old(self)@, choice, hint_index as int, last_guess);
                }
                HintResult::Hint { category: choice, value }
            },
            None => HintResult::NoHintAvailable,
        }
    }
}

/// A hint only takes numbers out: what is left above the secret is a prefix of
/// what was there, what is left below is a suffix, and the divisors are all
/// left or all gone.
pub proof fn lemma_narrowed_shrinks(
    candidates: Candidates,
    hint: Hint,
    hint_index: int,
    last_guess: Option<u16>,
)
    requires
        0 <= hint_index < pool_of(candidates, hint).len(),
    ensures
        ({
            let after = narrowed(candidates, hint, hint_index, last_guess);
            &&& after.less_than.is_prefix_of(candidates.less_than)
            &&& after.greater_than.is_suffix_of(candidates.greater_than)
            &&& after.divisible == candidates.divisible || after.divisible.len() == 0
            &&& after.less_than.len() <= candidates.less_than.len()
            &&& after.greater_than.len() <= candidates.greater_than.len()
            &&& after.divisible.len() <= candidates.divisible.len()
            &&& pool_of(after, hint).len() < pool_of(candidates, hint).len()
        }),
{
    let after = narrowed(candidates, hint, hint_index, last_guess);
    match hint {
        Hint::LessThan => {
            if last_guess is Some {
                candidates.less_than.index_of_first_ensures(last_guess->Some_0);
            }
            let cut = cut_point(candidates.less_than, hint_index, last_guess);
            assert(0 <= cut < candidates.less_than.len());
            assert(after.less_than =~= candidates.less_than.subrange(0, cut));
            assert(after.greater_than =~= candidates.greater_than.skip(0));
        },
        Hint::GreaterThan => {
            assert(after.less_than =~= candidates.less_than.take(candidates.less_than.len() as int));
            assert(after.greater_than.is_suffix_of(candidates.greater_than));
        },
        Hint::Divisible => {
            assert(after.less_than =~= candidates.less_than.take(candidates.less_than.len() as int));
            assert(after.greater_than =~= candidates.greater_than.skip(0));
        },
    }
}

/// Asks for the next hint and tells it in a sentence.
pub fn give_hint(last_guess: Option<u16>, space: &mut CandidateSpace) -> (text: String)
    ensures
        exists|result: HintResult|
            hint_step(old(space)@, last_guess, result, final(space)@) && text@ == #[trigger] hint_text(
                result,
            ),
{
    let result = space.next_hint(last_guess);
    format_hint(&result)
}

/// One request for a hint narrows nothing but by taking numbers out, and empties
/// the divisors where the hint named one.
pub proof fn lemma_step_shrinks(
    before: Candidates,
    last_guess: Option<u16>,
    result: HintResult,
    after: Candidates,
)
    requires
        hint_step(before, last_guess, result, after),
    ensures
        after.less_than.is_prefix_of(before.less_than),
        after.greater_than.is_suffix_of(before.greater_than),
        after.divisible.len() <= before.divisible.len(),
        result matches HintResult::Hint { category: Hint::Divisible, .. } ==> after.divisible.len()
            == 0,
        result matches HintResult::Hint { category, .. } ==> pool_of(after, category).len()
            < pool_of(before, category).len(),
{
    match result {
        HintResult::NoHintAvailable => {
            assert(after.less_than =~= before.less_than.take(before.less_than.len() as int));
            assert(after.greater_than =~= before.greater_than.skip(0));
        },
        HintResult::Hint { category, value } => {
            let hint_index = choose|hint_index: int|
                0 <= hint_index < pool_of(before, category).len() && value == #[trigger] pool_of(
                    before,
                    category,
                )[hint_index] && after == narrowed(before, category, hint_index, last_guess);
            lemma_narrowed_shrinks(before, category, hint_index, last_guess);
        },
    }
}

/// A candidate space that is tied to a secret stays tied to it under every
/// request for a hint.
pub proof fn lemma_step_stays_tied(
    before: Candidates,
    last_guess: Option<u16>,
    result: HintResult,
    after: Candidates,
    secret: u16,
    profile: DifficultyProfile,
)
    requires
        hint_step(before, last_guess, result, after),
        before.tied_to(secret, profile),
    ensures
        after.tied_to(secret, profile),
{
    lemma_step_shrinks(before, last_guess, result, after);
    let shift = before.greater_than.len() - after.greater_than.len();
    assert forall|i: int| 0 <= i < after.less_than.len() implies secret
        < #[trigger] after.less_than[i] <= profile.max by {
        assert(after.less_than[i] == before.less_than[i]);
    }
    assert forall|i: int| 0 <= i < after.greater_than.len() implies profile.min
        <= #[trigger] after.greater_than[i] < secret by {
        assert(after.greater_than[i] == before.greater_than[i + shift]);
    }
    assert forall|i: int, j: int| 0 <= i < j < after.less_than.len() implies after.less_than[i]
        < after.less_than[j] by {
        assert(after.less_than[i] == before.less_than[i]);
        assert(after.less_than[j] == before.less_than[j]);
    }
    assert forall|i: int, j: int|
        0 <= i < j < after.greater_than.len() implies after.greater_than[i]
        < after.greater_than[j] by {
        assert(after.greater_than[i] == before.greater_than[i + shift]);
        assert(after.greater_than[j] == before.greater_than[j + shift]);
    }
}

/// The bound that a less-than hint leaves on the numbers above the secret:
/// the last guess where it was one of them, else the value told.
pub open spec fn cut_value(less_than: Seq<u16>, value: u16, last_guess: Option<u16>) -> u16 {
    match last_guess {
        Some(guess) => if less_than.contains(guess) {
            guess
        } else {
            value
        },
        None => value,
    }
}

/// A hint leaves sharper bounds only. On a candidate space that is tied to the
/// secret, the numbers left below the secret after a greater-than hint all lie
/// above the value told, and the numbers left above the secret after a
/// less-than hint all lie below the number it cut at.
pub proof fn lemma_hint_sharpens(
    before: Candidates,
    last_guess: Option<u16>,
    result: HintResult,
    after: Candidates,
    secret: u16,
    profile: DifficultyProfile,
)
    requires
        hint_step(before, last_guess, result, after),
        before.tied_to(secret, profile),
    ensures
        result matches HintResult::Hint { category: Hint::GreaterThan, value } ==> forall|i: int|
            0 <= i < after.greater_than.len() ==> value < #[trigger] after.greater_than[i],
        result matches HintResult::Hint { category: Hint::LessThan, value } ==> forall|i: int|
            0 <= i < after.less_than.len() ==> #[trigger] after.less_than[i] < cut_value(
                before.less_than,
                value,
                last_guess,
            ),
{
    if let HintResult::Hint { category, value } = result {
        let hint_index = choose|hint_index: int|
            0 <= hint_index < pool_of(before, category).len() && value == #[trigger] pool_of(
                before,
                category,
            )[hint_index] && after == narrowed(before, category, hint_index, last_guess);
        match category {
            Hint::GreaterThan => {
                assert forall|i: int| 0 <= i < after.greater_than.len() implies value
                    < #[trigger] after.greater_than[i] by {
                    assert(after.greater_than[i] == before.greater_than[hint_index + 1 + i]);
                }
            },
            Hint::LessThan => {
                if last_guess is Some {
                    before.less_than.index_of_first_ensures(last_guess->Some_0);
                }
                let cut = cut_point(before.less_than, hint_index, last_guess);
                assert(before.less_than[cut] == cut_value(before.less_than, value, last_guess));
                assert forall|i: int| 0 <= i < after.less_than.len() implies #[trigger] after.less_than[i]
                    < cut_value(before.less_than, value, last_guess) by {
                    assert(after.less_than[i] == before.less_than[i]);
                }
            },
            Hint::Divisible => {},
        }
    }
}

/// What a hint says is true of the secret.
pub open spec fn hint_holds(result: HintResult, secret: u16) -> bool {
    match result {
        HintResult::Hint { category: Hint::LessThan, value } => secret < value,
        HintResult::Hint { category: Hint::GreaterThan, value } => secret > value,
        HintResult::Hint { category: Hint::Divisible, value } => divides(value, secret),
        HintResult::NoHintAvailable => true,
    }
}

/// Every hint drawn from a candidate space that is tied to the secret is true
/// of the secret.
pub proof fn lemma_hint_is_true(
    before: Candidates,
    last_guess: Option<u16>,
    result: HintResult,
    after: Candidates,
    secret: u16,
    profile: DifficultyProfile,
)
    requires
        hint_step(before, last_guess, result, after),
        before.tied_to(secret, profile),
    ensures
        hint_holds(result, secret),
{
}

/// One request for a hint in the course of a round: the guess it followed and
/// what it gave.
pub struct HintRequest {
    pub last_guess: Option<u16>,
    pub result: HintResult,
}

/// `spaces` are the candidate spaces that a round passes through under the
/// successive `requests`: request `k` leads from `spaces[k]` to `spaces[k + 1]`.
pub open spec fn hint_run(spaces: Seq<Candidates>, requests: Seq<HintRequest>) -> bool {
    &&& spaces.len() == requests.len() + 1
    &&& forall|k: int|
        0 <= k < requests.len() ==> hint_step(
            spaces[k],
            (#[trigger] requests[k]).last_guess,
            requests[k].result,
            spaces[k + 1],
        )
}

/// Over successive requests for hints the collections only shrink: at every
/// later point of a round each of them holds at most what it held before.
pub proof fn lemma_run_only_shrinks(
    spaces: Seq<Candidates>,
    requests: Seq<HintRequest>,
    earlier: int,
    later: int,
)
    requires
        hint_run(spaces, requests),
        0 <= earlier <= later < spaces.len(),
    ensures
        spaces[later].less_than.is_prefix_of(spaces[earlier].less_than),
        spaces[later].greater_than.is_suffix_of(spaces[earlier].greater_than),
        spaces[later].less_than.len() <= spaces[earlier].less_than.len(),
        spaces[later].greater_than.len() <= spaces[earlier].greater_than.len(),
        spaces[later].divisible.len() <= spaces[earlier].divisible.len(),
    decreases later - earlier,
{
    let first = spaces[earlier];
    if earlier == later {
        assert(first.less_than =~= first.less_than.subrange(0, first.less_than.len() as int));
        assert(first.greater_than =~= first.greater_than.subrange(
            0,
            first.greater_than.len() as int,
        ));
    } else {
        let middle = spaces[later - 1];
        let last = spaces[later];
        lemma_run_only_shrinks(spaces, requests, earlier, later - 1);
        let request = requests[later - 1];
        lemma_step_shrinks(middle, request.last_guess, request.result, last);
        assert(last.less_than =~= first.less_than.subrange(0, last.less_than.len() as int));
        assert(last.greater_than =~= first.greater_than.subrange(
            first.greater_than.len() - last.greater_than.len(),
            first.greater_than.len() as int,
        ));
    }
}

/// A round gives at most one divisibility hint: after one, the category is
/// ineligible at every later request.
pub proof fn lemma_divisible_hint_once(
    spaces: Seq<Candidates>,
    requests: Seq<HintRequest>,
    earlier: int,
    later: int,
)
    requires
        hint_run(spaces, requests),
        0 <= earlier < later < requests.len(),
        requests[earlier].result matches HintResult::Hint { category: Hint::Divisible, .. },
    ensures
        !eligible(spaces[later], Hint::Divisible),
        !(requests[later].result matches HintResult::Hint { category: Hint::Divisible, .. }),
{
    let request = requests[earlier];
    lemma_step_shrinks(spaces[earlier], request.last_guess, request.result, spaces[earlier + 1]);
    lemma_run_only_shrinks(spaces, requests, earlier + 1, later);
    let next = requests[later];
    assert(hint_step(spaces[later], next.last_guess, next.result, spaces[later + 1]));
}

/// Where no category is eligible, a request for a hint has one outcome only:
/// no hint, and the space as it was.
pub proof fn lemma_exhausted_gives_no_hint(
    before: Candidates,
    last_guess: Option<u16>,
    result: HintResult,
    after: Candidates,
)
    requires
        hint_step(before, last_guess, result, after),
        exhausted(before),
    ensures
        result == HintResult::NoHintAvailable,
        after == before,
{
}

} // verus!
