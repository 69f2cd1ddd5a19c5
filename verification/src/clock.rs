//! The clock: the current instant and the time between instants.
//!
//! Durations and instants are opaque here, and every value read from the
//! clock is taken as it comes: the logic that uses them is verified for
//! every value.

use vstd::prelude::*;
use std::time::{Duration, Instant};

verus! {

#[verifier::external_type_specification]
#[verifier::external_body]
pub struct ExInstant(Instant);

/// The current time.
///
/// Calls `std::time::Instant::now`; nothing is claimed of the value.
#[verifier::external_body]
pub(crate) fn now() -> Instant {
    Instant::now()
}

/// The time elapsed since `start`.
///
/// Calls `std::time::Instant::elapsed`; nothing is claimed of the value,
/// which depends on the clock.
#[verifier::external_body]
pub(crate) fn elapsed(start: &Instant) -> Duration {
    start.elapsed()
}

/// The time from `earlier` to `later`, zero if `later` is not after it.
///
/// Calls `std::time::Instant::duration_since`; nothing is claimed of the
/// value, as instants and durations are opaque here.
#[verifier::external_body]
pub(crate) fn duration_since(later: &Instant, earlier: &Instant) -> Duration {
    later.duration_since(*earlier)
}

/// The whole nanoseconds in `d`.
///
/// Calls `std::time::Duration::as_nanos`; nothing is claimed of the value,
/// as a `Duration` is opaque here.
#[verifier::external_body]
pub(crate) fn duration_nanos(d: &Duration) -> u128 {
    d.as_nanos()
}

/// The whole milliseconds in `d`.
///
/// Calls `std::time::Duration::as_millis`; nothing is claimed of the value,
/// as a `Duration` is opaque here.
#[verifier::external_body]
pub(crate) fn duration_millis(d: &Duration) -> u128 {
    d.as_millis()
}

} // verus!
