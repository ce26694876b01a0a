//! The trusted boundary around the `rand` crate: where the coin flips for a
//! random fill come from. Nothing is claimed of their values.

use rand::rngs::ThreadRng;
use rand::Rng;
use vstd::prelude::*;

verus! {

/// `rand::rngs::ThreadRng`, carried as an opaque value.
#[verifier::external_type_specification]
#[verifier::external_body]
pub struct ExThreadRng(rand::rngs::ThreadRng);

/// `rand::thread_rng`: a handle to the generator of the current thread, which
/// the operating system seeds on first use. Nothing is known of its state.
/// (Where the operating system has no randomness to give, the first use
/// panics; no argument decides that, so no `requires` can rule it out.)
pub assume_specification[ rand::thread_rng ]() -> (rng: ThreadRng);

/// `Rng::gen::<bool>`: the next fair coin flip of the generator. Either value
/// may come back, so the contract is silent.
#[verifier::external_body]
pub(crate) fn coin_flip(rng: &mut ThreadRng) -> (heads: bool) {
    rng.gen()
}

} // verus!
