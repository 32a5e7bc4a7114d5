//! The random source: the thread-local generator of the `rand` crate behind
//! trusted wrappers, and the probability trial the engine rolls with it.

use vstd::prelude::*;

verus! {

#[verifier::external_type_specification]
#[verifier::external_body]
pub struct ExThreadRng(rand::rngs::ThreadRng);

/// Relies on rand::thread_rng: a handle to the thread-local generator.
#[verifier::external_body]
pub fn fresh_rng() -> rand::rngs::ThreadRng {
    rand::thread_rng()
}

/// Relies on rand::Rng::gen::<u64>: one uniformly random 64-bit value.
/// Nothing is promised of the result; callers state what holds of every
/// outcome.
#[verifier::external_body]
pub(crate) fn next_u64(rng: &mut rand::rngs::ThreadRng) -> u64 {
    rand::Rng::gen::<u64>(rng)
}

/// One probability trial: true with probability `permille / 1000` (up to the
/// slight low-bit bias of the modulo reduction). A probability of zero never
/// hits, one of 1000 or more always does.
pub fn trial(rng: &mut rand::rngs::ThreadRng, permille: u32) -> (hit: bool)
    ensures
        permille == 0 ==> !hit,
        permille >= 1000 ==> hit,
{
    let draw: u64 = next_u64(rng);
    draw % 1000 < permille as u64
}

} // verus!
