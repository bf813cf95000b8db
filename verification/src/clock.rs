//! Time sources for the limiter.

use vstd::prelude::*;

use std::time::{Duration, Instant};

verus! {

/// Monotonic time source used by [`crate::RateLimiter`].
///
/// Implementors must guarantee monotonic behavior. If an implementation
/// returns a smaller value than before, refill is intentionally disabled
/// until time catches up.
pub trait Clock {
    /// Returns current monotonic timestamp in nanoseconds.
    fn now_ns(&self) -> u64;
}

/// `std::time::Instant`, a reading of the operating system's monotonic clock.
#[verifier::external_type_specification]
#[verifier::external_body]
pub struct ExInstant(Instant);

/// Calls `std::time::Instant::now`. What it returns depends on the time of
/// the call, so nothing is stated of it.
#[verifier::external_body]
fn instant_now() -> Instant {
    Instant::now()
}

/// Calls `std::time::Instant::elapsed` on `origin`. The duration depends on
/// the time of the call, so nothing is stated of it.
#[verifier::external_body]
fn instant_elapsed(origin: &Instant) -> Duration {
    origin.elapsed()
}

/// Calls `std::time::Duration::as_nanos`: the whole nanoseconds in `d`.
/// `Duration` is opaque here, so nothing is stated of the result.
#[verifier::external_body]
fn duration_as_nanos(d: &Duration) -> u128 {
    d.as_nanos()
}

/// A nanosecond count clamped into `u64`.
fn saturate_nanos(nanos: u128) -> (r: u64)
    ensures
        r == (if nanos > u64::MAX as u128 {
            u64::MAX
        } else {
            nanos as u64
        }),
{
    if nanos > u64::MAX as u128 {
        u64::MAX
    } else {
        nanos as u64
    }
}

/// `std` clock implementation backed by [`std::time::Instant`]: nanoseconds
/// since the clock was created. Copies share the same origin; clocks created
/// separately each count from their own creation, since a single origin for
/// the whole process would need a `static`, which this crate does not hold.
#[derive(Clone, Copy, Debug)]
pub struct StdClock {
    origin: Instant,
}

impl StdClock {
    /// Creates a clock whose readings count from now.
    pub fn new() -> Self {
        StdClock { origin: instant_now() }
    }
}

impl Default for StdClock {
    /// A clock whose readings count from now, as [`StdClock::new`].
    fn default() -> Self {
        StdClock::new()
    }
}

impl Clock for StdClock {
    fn now_ns(&self) -> u64 {
        let elapsed = instant_elapsed(&self.origin);
        saturate_nanos(duration_as_nanos(&elapsed))
    }
}

} // verus!
