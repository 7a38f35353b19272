//! The clock of the machine.

use std::time::Instant;
use vstd::prelude::*;

verus! {

/// A point in time, as the clock of the machine counts it.
#[verifier::external_type_specification]
#[verifier::external_body]
pub struct ExInstant(Instant);

/// `Instant::now`.
#[verifier::external_body]
pub(crate) fn clock_now() -> Instant {
    Instant::now()
}

/// `Instant::elapsed`, as the nanoseconds of the `Duration` it gives
/// (`Duration::as_nanos`).
#[verifier::external_body]
pub(crate) fn clock_nanos_since(origin: &Instant) -> u128 {
    origin.elapsed().as_nanos()
}

} // verus!
