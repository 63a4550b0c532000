//! Random limbs from the thread-local generator of the `rand` crate.

use vstd::prelude::*;
use ark_std::rand::Rng;

verus! {

/// `rand::rngs::ThreadRng`, a handle to the generator that `rand` keeps for
/// each thread. Nothing is known of what it holds.
#[verifier::external_type_specification]
#[verifier::external_body]
pub struct ExThreadRng(ark_std::rand::rngs::ThreadRng);

/// Calls `rand::thread_rng`, which hands out the handle to this thread's
/// generator. Nothing is claimed of the handle. The generator is seeded from
/// the operating system on first use and `rand` panics if that fails.
#[verifier::external_body]
pub(crate) fn thread_rng() -> ark_std::rand::rngs::ThreadRng {
    ark_std::rand::thread_rng()
}

/// Calls `rand::Rng::gen` for a `u64`, which takes the next 64-bit word from
/// the generator. Nothing is claimed of the word: every value can come out,
/// and two calls may differ.
#[verifier::external_body]
pub(crate) fn gen_word(rng: &mut ark_std::rand::rngs::ThreadRng) -> u64 {
    rng.gen()
}

} // verus!
