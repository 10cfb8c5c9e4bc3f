//! The random draws, made by the `rand` crate. Nothing here is proved: each
//! contract states what `rand` documents of the call. A draw fails where the
//! system has no entropy to seed the generator with; no argument causes that,
//! and no contract here excludes it.

use vstd::prelude::*;
use rand::rngs::ThreadRng;
use rand::seq::SliceRandom;
use rand::Rng;
use crate::hint::Hint;

verus! {

/// `rand::rngs::ThreadRng`, the generator of the current thread. Its state is
/// not modelled.
#[verifier::external_type_specification]
#[verifier::external_body]
pub struct ExThreadRng(ThreadRng);

/// `rand::thread_rng`: a handle to the generator of the current thread, which
/// the system seeds on first use. Nothing is claimed of the handle.
pub assume_specification[ rand::thread_rng ]() -> (rng: ThreadRng)
;

/// `Rng::gen_range` on the half-open range `low..high`, which panics when the
/// range is empty. Claimed: the number drawn lies in the range. That every
/// number of the range is as likely as any other is `rand`'s doing and is not
/// stated.
#[verifier::external_body]
pub(crate) fn gen_range(rng: &mut ThreadRng, low: usize, high: usize) -> (drawn: usize)
    requires
        low < high,
    ensures
        low <= drawn < high,
{
    rng.gen_range(low..high)
}

/// `SliceRandom::choose` on a slice of hint categories. Claimed: nothing is
/// chosen from an empty slice, and what is chosen from another is one of its
/// elements.
#[verifier::external_body]
pub(crate) fn choose_hint(hints: &Vec<Hint>, rng: &mut ThreadRng) -> (chosen: Option<Hint>)
    ensures
        match chosen {
            Some(hint) => hints@.contains(hint),
            None => hints@.len() == 0,
        },
{
    hints.choose(rng).copied()
}

} // verus!
