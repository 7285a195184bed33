//! The source of random bytes.

use vstd::prelude::*;
use rand::Rng;

verus! {

/// The generator of the `rand` crate that each thread owns. Nothing is
/// known of what is inside it.
#[verifier::external_type_specification]
#[verifier::external_body]
pub struct ExThreadRng(rand::rngs::ThreadRng);

/// Calls `rand::thread_rng`, which hands out the calling thread's
/// generator. Nothing is claimed of the generator.
#[verifier::external_body]
pub(crate) fn thread_generator() -> rand::rngs::ThreadRng {
    rand::thread_rng()
}

/// Calls `Rng::gen_range` on the whole range of a byte, `0..=255`. The
/// range is not empty, so the call returns. Nothing is claimed of the byte
/// that comes back: it may be any.
#[verifier::external_body]
pub(crate) fn random_byte(rng: &mut rand::rngs::ThreadRng) -> u8 {
    rng.gen_range(0..=255u8)
}

} // verus!
