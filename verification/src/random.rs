//! The random source.  Everything here is taken on trust from the `rand`
//! crate; the contracts say only what holds of every draw.

use rand::rngs::ThreadRng;
use rand::seq::SliceRandom;
use rand::Rng;
use vstd::prelude::*;

verus! {

/// `rand::rngs::ThreadRng`, the handle to a thread's generator.  The engine
/// only passes it on.
#[verifier::external_type_specification]
#[verifier::external_body]
pub struct ExThreadRng(ThreadRng);

/// `rand::thread_rng`: a handle to the generator of the current thread,
/// which the system seeds.  Nothing is claimed of it.
pub assume_specification[ rand::thread_rng ]() -> (rng: ThreadRng)
;

/// `SliceRandom::shuffle` on the items of a vector: they come back in some
/// other order, none lost, none added.
#[verifier::external_body]
pub(crate) fn shuffle<T>(items: &mut Vec<T>, rng: &mut ThreadRng)
    ensures
        final(items)@.to_multiset() == old(items)@.to_multiset(),
{
    items.shuffle(rng);
}

/// `Rng::gen_range` on `low..high`: a number from `low` up to, but not
/// including, `high`.  The call panics on an empty range, hence the
/// demand.
#[verifier::external_body]
pub(crate) fn draw_between(rng: &mut ThreadRng, low: u32, high: u32) -> (r: u32)
    requires
        low < high,
    ensures
        low <= r < high,
{
    rng.gen_range(low..high)
}

/// `Rng::gen_ratio`: `true` with a chance of `numerator` in `denominator`.
/// The call panics where the ratio is not one of a probability, hence
/// the demand.  A chance of 0 gives `false` and a chance of 1 `true`.
#[verifier::external_body]
pub(crate) fn draw_ratio(rng: &mut ThreadRng, numerator: u32, denominator: u32) -> (r: bool)
    requires
        0 < denominator,
        numerator <= denominator,
    ensures
        numerator == 0 ==> !r,
        numerator == denominator ==> r,
{
    rng.gen_ratio(numerator, denominator)
}

} // verus!
