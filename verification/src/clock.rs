//! Wall-clock time for the instrumentation of heuristic calls.
//!
//! What the clock returns differs from call to call, so nothing is claimed of it.

use std::time::{Duration, Instant};
use vstd::prelude::*;

verus! {

/// `std::time::Instant`, a reading of the monotonic clock.
#[verifier::external_type_specification]
#[verifier::external_body]
pub struct ExInstant(Instant);

/// Calls `Instant::now`. Trusted to return; nothing is claimed of the reading.
#[verifier::external_body]
pub(crate) fn now() -> Instant {
    Instant::now()
}

/// Calls `Instant::elapsed`. Trusted to return; nothing is claimed of the duration.
#[verifier::external_body]
pub(crate) fn elapsed(start: &Instant) -> Duration {
    start.elapsed()
}

/// Calls `Duration::as_nanos`. Trusted to return; nothing is claimed of the number.
#[verifier::external_body]
pub(crate) fn as_nanos(duration: &Duration) -> u128 {
    duration.as_nanos()
}

} // verus!
