//! The random draws of the library, made by the `rand` crate.

use rand::seq::SliceRandom;
use rand::Rng;
use vstd::prelude::*;

verus! {

/// `rand::seq::SliceRandom::choose` on a slice, with the generator that
/// `rand::thread_rng` hands out. Trusted: for a slice that is not empty the
/// call yields one of its elements; which one is left open.
#[verifier::external_body]
pub(crate) fn choose_one<T: Copy>(items: &[T]) -> (r: T)
    requires
        items@.len() > 0,
    ensures
        items@.contains(r),
{
    *items.choose(&mut rand::thread_rng()).unwrap()
}

/// `rand::Rng::gen_range` over the half-open range `0..bound`, with the
/// generator that `rand::thread_rng` hands out. Trusted: the draw lies in the
/// range; the call panics on an empty range, which `requires` leaves out.
#[verifier::external_body]
pub(crate) fn random_below(bound: u32) -> (r: u32)
    requires
        bound > 0,
    ensures
        r < bound,
{
    rand::thread_rng().gen_range(0..bound)
}

} // verus!
