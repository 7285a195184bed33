//! The monotonic clock of the host.

use vstd::prelude::*;

verus! {

/// A reading of the standard library's monotonic clock. Nothing is known
/// of what is inside it.
#[verifier::external_type_specification]
#[verifier::external_body]
pub struct ExInstant(std::time::Instant);

/// Calls `Instant::now`, which reads the monotonic clock. Nothing is
/// claimed of the reading.
#[verifier::external_body]
pub(crate) fn instant_now() -> std::time::Instant {
    std::time::Instant::now()
}

/// Calls `Instant::elapsed` on `origin` and `Duration::as_micros` on what
/// comes back: the whole microseconds that have passed since `origin` was
/// read. Nothing is claimed of their number, which depends on when the
/// call is made.
#[verifier::external_body]
pub(crate) fn micros_since(origin: &std::time::Instant) -> u128 {
    origin.elapsed().as_micros()
}

} // verus!
