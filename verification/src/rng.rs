//! Randomness for fleet placement, drawn from the `rand` crate behind
//! minimal trusted wrappers.

use rand::Rng;
use vstd::prelude::*;

verus! {

#[verifier::external_type_specification]
#[verifier::external_body]
pub struct ExThreadRng(rand::rngs::ThreadRng);

/// Relies on `rand::thread_rng`: a handle to the thread-local generator.
#[verifier::external_body]
pub(crate) fn new_rng() -> rand::rngs::ThreadRng {
    rand::thread_rng()
}

/// Relies on `Rng::gen::<bool>`: a random orientation draw; nothing is
/// promised about which side comes up.
#[verifier::external_body]
pub(crate) fn coin_flip(rng: &mut rand::rngs::ThreadRng) -> bool {
    rng.gen::<bool>()
}

/// Relies on `Rng::gen_range`: a draw from `0..n`, which always lies below
/// `n`; which value comes back is not promised. The range must be
/// non-empty, since `gen_range` panics on an empty one.
#[verifier::external_body]
pub(crate) fn random_below(rng: &mut rand::rngs::ThreadRng, n: usize) -> (r: usize)
    requires
        n > 0,
    ensures
        r < n,
{
    rng.gen_range(0..n)
}

} // verus!
