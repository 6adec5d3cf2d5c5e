//! The interpreter's only source of nondeterminism: a thread-local random
//! number generator from the `rand` crate, kept behind trusted declarations.
//! Nothing is promised of the bytes it yields, so every contract that
//! involves one quantifies over all possible values.

use vstd::prelude::*;

verus! {

#[verifier::external_type_specification]
#[verifier::external_body]
pub struct ExThreadRng(rand::rngs::ThreadRng);

/// Relies on rand::thread_rng: hands out the thread-local generator.
#[verifier::external_body]
pub(crate) fn new_rng() -> rand::rngs::ThreadRng {
    rand::thread_rng()
}

/// Relies on rand::Rng::gen::<u8>: draws one uniformly distributed byte.
/// No contract is stated: nothing can be promised of a random value.
#[verifier::external_body]
pub(crate) fn next_byte(rng: &mut rand::rngs::ThreadRng) -> u8 {
    rand::Rng::gen::<u8>(rng)
}

} // verus!
