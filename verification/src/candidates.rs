//! The candidate space: the numbers that the hints of a round can still name.

use vstd::prelude::*;
use crate::difficulty::DifficultyProfile;

verus! {

/// The smallest divisor that a divisibility hint can name.
pub const MIN_DIVISOR: u16 = 2;

/// The largest divisor that a divisibility hint can name.
pub const MAX_DIVISOR: u16 = 20;

/// The integers `lo, lo + 1, ..., hi - 1` in ascending order; empty when `hi <= lo`.
pub open spec fn ascending(lo: int, hi: int) -> Seq<u16> {
    Seq::new(
        if hi > lo {
            (hi - lo) as nat
        } else {
            0
        },
        |i: int| (lo + i) as u16,
    )
}

/// Every number is less than each number after it.
pub open spec fn strictly_ascending(nums: Seq<u16>) -> bool {
    forall|i: int, j: int| 0 <= i < j < nums.len() ==> nums[i] < nums[j]
}

/// `d` divides `n` with no remainder.
pub open spec fn divides(d: u16, n: u16) -> bool {
    d != 0 && n % d == 0
}

/// The divisors of `secret` between `MIN_DIVISOR` and `MAX_DIVISOR`, ascending.
pub open spec fn divisors_of(secret: u16) -> Seq<u16> {
    ascending(MIN_DIVISOR as int, MAX_DIVISOR + 1).filter(|d: u16| divides(d, secret))
}

/// Mathematical model of a candidate space.
pub struct Candidates {
    /// Numbers the secret is known to be less than, ascending.
    pub less_than: Seq<u16>,
    /// Numbers the secret is known to be greater than, ascending.
    pub greater_than: Seq<u16>,
    /// Divisors of the secret that no hint has named yet.
    pub divisible: Seq<u16>,
}

impl Candidates {
    /// Every number above the secret bounds it from above, every number below
    /// bounds it from below, and every divisor divides it. Each collection is
    /// in ascending order and names no number twice.
    pub open spec fn tied_to(self, secret: u16, profile: DifficultyProfile) -> bool {
        &&& strictly_ascending(self.less_than)
        &&& strictly_ascending(self.greater_than)
        &&& strictly_ascending(self.divisible)
        &&& forall|i: int|
            0 <= i < self.less_than.len() ==> secret < #[trigger] self.less_than[i] <= profile.max
        &&& forall|i: int|
            0 <= i < self.greater_than.len() ==> profile.min <= #[trigger] self.greater_than[i]
                < secret
        &&& forall|i: int|
            0 <= i < self.divisible.len() ==> MIN_DIVISOR <= #[trigger] self.divisible[i]
                <= MAX_DIVISOR && divides(self.divisible[i], secret)
    }
}

/// The candidate space at the start of a round.
pub open spec fn initial_candidates(secret: u16, profile: DifficultyProfile) -> Candidates {
    Candidates {
        less_than: ascending(secret + 1, profile.max + 1),
        greater_than: ascending(profile.min as int, secret as int),
        divisible: divisors_of(secret),
    }
}

/// The three collections that the hints of a round draw from.
#[derive(Debug)]
pub struct CandidateSpace {
    /// Numbers the secret is known to be less than, ascending.
    pub less_than: Vec<u16>,
    /// Numbers the secret is known to be greater than, ascending.
    pub greater_than: Vec<u16>,
    /// Divisors of the secret that no hint has named yet.
    pub divisible: Vec<u16>,
}

impl View for CandidateSpace {
    type V = Candidates;

    open spec fn view(&self) -> Candidates {
        Candidates {
            less_than: self.less_than@,
            greater_than: self.greater_than@,
            divisible: self.divisible@,
        }
    }
}

proof fn lemma_ascending_push(lo: int, hi: int)
    requires
        lo <= hi,
    ensures
        ascending(lo, hi + 1) == ascending(lo, hi).push(hi as u16),
{
    assert(ascending(lo, hi + 1) =~= ascending(lo, hi).push(hi as u16));
}

/// Appends to the three vectors what a fresh round holds for the secret
/// `number`: the numbers above it up to `profile.max`, the numbers below it
/// down to `profile.min`, and its divisors.
pub fn build_hint_arrays(
    number: u16,
    profile: &DifficultyProfile,
    less_than_nums: &mut Vec<u16>,
    greater_than_nums: &mut Vec<u16>,
    divisible_nums: &mut Vec<u16>,
)
    ensures
        final(less_than_nums)@ == old(less_than_nums)@ + ascending(number + 1, profile.max + 1),
        final(greater_than_nums)@ == old(greater_than_nums)@ + ascending(
            profile.min as int,
            number as int,
        ),
        final(divisible_nums)@ == old(divisible_nums)@ + divisors_of(number),
{
    let mut above: u16 = number;
    while above < profile.max
        invariant
            above == number || number < above <= profile.max,
            less_than_nums@ == old(less_than_nums)@ + ascending(number + 1, above + 1),
        decreases profile.max - above,
    {
        above = above + 1;
        proof {
            lemma_ascending_push(number + 1, above as int);
        }
        less_than_nums.push(above);
    }

    let mut below: u16 = profile.min;
    while below < number
        invariant
            below == profile.min || profile.min < below <= number,
            greater_than_nums@ == old(greater_than_nums)@ + ascending(
                profile.min as int,
                below as int,
            ),
        decreases number - below,
    {
        proof {
            lemma_ascending_push(profile.min as int, below as int);
        }
        greater_than_nums.push(below);
        below = below + 1;
    }

    let ghost dividing = |d: u16| divides(d, number);
    let mut divisor: u16 = MIN_DIVISOR;
    while divisor <= MAX_DIVISOR
        invariant
            MIN_DIVISOR <= divisor <= MAX_DIVISOR + 1,
            dividing == (|d: u16| divides(d, number)),
            divisible_nums@ == old(divisible_nums)@ + ascending(
                MIN_DIVISOR as int,
                divisor as int,
            ).filter(dividing),
        decreases MAX_DIVISOR + 1 - divisor,
    {
        proof {
            lemma_ascending_push(MIN_DIVISOR as int, divisor as int);
            ascending(MIN_DIVISOR as int, divisor as int).lemma_filter_push(divisor, dividing);
        }
        if number % divisor == 0 {
            divisible_nums.push(divisor);
        }
        divisor = divisor + 1;
    }
}

impl CandidateSpace {
    /// The candidate space of a fresh round with the given secret.
    pub fn build(secret: u16, profile: &DifficultyProfile) -> (space: CandidateSpace)
        ensures
            space@ == initial_candidates(secret, *profile),
    {
        let mut less_than: Vec<u16> = Vec::new();
        let mut greater_than: Vec<u16> = Vec::new();
        let mut divisible: Vec<u16> = Vec::new();
        build_hint_arrays(secret, profile, &mut less_than, &mut greater_than, &mut divisible);
        CandidateSpace { less_than, greater_than, divisible }
    }
}

/// Taking numbers out of an ascending sequence leaves it ascending.
proof fn lemma_filter_keeps_ascent(nums: Seq<u16>, pred: spec_fn(u16) -> bool)
    requires
        strictly_ascending(nums),
    ensures
        strictly_ascending(nums.filter(pred)),
    decreases nums.len(),
{
    reveal(Seq::filter);
    if nums.len() > 0 {
        let rest = nums.drop_last();
        let last = nums.last();
        let kept = rest.filter(pred);
        lemma_filter_keeps_ascent(rest, pred);
        if pred(last) {
            assert forall|i: int, j: int| 0 <= i < j < kept.push(last).len() implies kept.push(
                last,
            )[i] < kept.push(last)[j] by {
                if j == kept.len() {
                    assert(kept.contains(kept[i]));
                    rest.lemma_filter_contains_rev(pred, kept[i]);
                    let k = choose|k: int| 0 <= k < rest.len() && rest[k] == kept[i];
                    assert(nums[k] < nums[nums.len() - 1]);
                }
            }
        }
    }
}

/// A fresh candidate space is tied to its secret.
pub proof fn lemma_initial_candidates_tied(secret: u16, profile: DifficultyProfile)
    ensures
        initial_candidates(secret, profile).tied_to(secret, profile),
{
    let dividing = |d: u16| divides(d, secret);
    let range = ascending(MIN_DIVISOR as int, MAX_DIVISOR + 1);
    lemma_filter_keeps_ascent(range, dividing);
    assert forall|i: int| 0 <= i < divisors_of(secret).len() implies MIN_DIVISOR
        <= #[trigger] divisors_of(secret)[i] <= MAX_DIVISOR && divides(
        divisors_of(secret)[i],
        secret,
    ) by {
        let d = divisors_of(secret)[i];
        range.lemma_filter_pred(dividing, i);
        assert(range.filter(dividing).contains(d));
        range.lemma_filter_contains_rev(dividing, d);
    }
}

} // verus!
