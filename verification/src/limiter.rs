//! The lock-free token bucket.

use vstd::prelude::*;

use core::sync::atomic::{AtomicU64, Ordering};

use crate::bucket::{clamp_count, credit_tokens, debit_tokens, refill_step, spec_refill_step};
use crate::clock::{Clock, StdClock};

verus! {

/// Non-allocating lock-free token bucket.
///
/// Tokens are deducted atomically. Refill happens lazily during API calls.
pub struct RateLimiter<C: Clock> {
    capacity: u64,
    refill_per_sec: u64,
    tokens: AtomicU64,
    last_refill_ns: AtomicU64,
    clock: C,
}

/// Best-effort state snapshot for observability.
///
/// Under contention, fields may reflect slightly different moments in time,
/// but `tokens` is always bounded by `capacity`.
#[derive(Clone, Copy, Debug, Eq, PartialEq)]
pub struct Snapshot {
    /// Current token estimate.
    pub tokens: u64,
    /// Last refill timestamp in nanoseconds.
    pub last_refill_ns: u64,
    /// Configured token bucket capacity.
    pub capacity: u64,
    /// Refill speed in tokens per second.
    pub refill_per_sec: u64,
}

/// Calls `AtomicU64::fetch_update` on `tokens` with a closure that credits
/// `add` tokens through [`credit_tokens`]. The closure always returns `Some`,
/// so by the documentation of `fetch_update` the call returns `Ok` (with the
/// previous count). What the count was and becomes depends on other threads,
/// so no clause speaks of it.
#[verifier::external_body]
fn credit_atomically(tokens: &AtomicU64, add: u64, capacity: u64) -> (r: Result<u64, u64>)
    ensures
        r is Ok,
{
    tokens.fetch_update(
        Ordering::AcqRel,
        Ordering::Acquire,
        |current| Some(credit_tokens(current, add, capacity)),
    )
}

/// Calls `core::hint::spin_loop`, a hint to the processor with no effect on
/// any value.
#[verifier::external_body]
fn spin_hint() {
    core::hint::spin_loop()
}

impl<C: Clock> RateLimiter<C> {
    /// The configured capacity.
    pub closed spec fn spec_capacity(&self) -> u64 {
        self.capacity
    }

    /// The configured refill rate in tokens per second.
    pub closed spec fn spec_refill_per_sec(&self) -> u64 {
        self.refill_per_sec
    }

    /// The clock that the limiter reads.
    pub closed spec fn spec_clock(&self) -> C {
        self.clock
    }

    /// Creates a new limiter with a custom clock.
    ///
    /// The bucket starts full (`tokens == capacity`).
    pub fn with_clock(capacity: u64, refill_per_sec: u64, clock: C) -> (s: Self)
        ensures
            s.spec_capacity() == capacity,
            s.spec_refill_per_sec() == refill_per_sec,
            s.spec_clock() == clock,
    {
        let now = clock.now_ns();
        RateLimiter {
            capacity,
            refill_per_sec,
            tokens: AtomicU64::new(capacity),
            last_refill_ns: AtomicU64::new(now),
            clock,
        }
    }

    /// Tries to take one token.
    ///
    /// Returns `true` if a token was consumed. Whether one is there depends on
    /// the shared token count, which other threads change; only the case of a
    /// zero capacity is decided by the arguments alone.
    pub fn allow(&self) -> (r: bool)
        ensures
            self.spec_capacity() == 0 ==> !r,
    {
        self.allow_n(1)
    }

    /// Tries to take `n` tokens atomically.
    ///
    /// If this method returns `false`, token count is not decreased.
    /// Taking no tokens always succeeds; taking more than the capacity never does.
    /// A take that loses a race with another thread is retried, up to
    /// `u64::MAX` times; should every retry lose, no tokens are taken and
    /// `false` is returned.
    pub fn allow_n(&self, n: u64) -> (r: bool)
        ensures
            n == 0 ==> r,
            n > self.spec_capacity() ==> !r,
    {
        if n == 0 {
            return true;
        }
        if n > self.capacity {
            return false;
        }
        let mut attempts: u64 = 0;
        while attempts < u64::MAX
            invariant
                0 < n <= self.spec_capacity(),
            decreases u64::MAX - attempts,
        {
            if self.refill_per_sec != 0 {
                let _ = self.try_refill(self.clock.now_ns());
            }
            let current = self.tokens.load(Ordering::Acquire);
            match debit_tokens(current, n) {
                None => {
                    return false;
                },
                Some(next) => {
                    let swapped = self.tokens.compare_exchange_weak(
                        current,
                        next,
                        Ordering::AcqRel,
                        Ordering::Acquire,
                    );
                    if swapped.is_ok() {
                        return true;
                    }
                },
            }
            spin_hint();
            attempts = attempts + 1;
        }
        false
    }

    /// Returns a bounded token estimate.
    ///
    /// Under contention this is a snapshot and may be approximate. The count
    /// is read from shared state that other threads change, so the contract
    /// bounds it by the capacity and does not fix it.
    pub fn remaining(&self) -> (r: u64)
        ensures
            r <= self.spec_capacity(),
    {
        let _ = self.try_refill(self.clock.now_ns());
        self.bounded_tokens()
    }

    /// Returns configured capacity.
    pub fn capacity(&self) -> (r: u64)
        ensures
            r == self.spec_capacity(),
    {
        self.capacity
    }

    /// Returns configured refill rate in tokens per second.
    pub fn refill_per_sec(&self) -> (r: u64)
        ensures
            r == self.spec_refill_per_sec(),
    {
        self.refill_per_sec
    }

    /// Returns a best-effort snapshot for metrics/debugging.
    pub fn snapshot(&self) -> (s: Snapshot)
        ensures
            s.tokens <= s.capacity,
            s.capacity == self.spec_capacity(),
            s.refill_per_sec == self.spec_refill_per_sec(),
    {
        let _ = self.try_refill(self.clock.now_ns());
        Snapshot {
            tokens: self.bounded_tokens(),
            last_refill_ns: self.last_refill_ns.load(Ordering::Acquire),
            capacity: self.capacity,
            refill_per_sec: self.refill_per_sec,
        }
    }

    /// The token count read from the bucket, capped at the capacity.
    fn bounded_tokens(&self) -> (r: u64)
        ensures
            r <= self.spec_capacity(),
    {
        clamp_count(self.tokens.load(Ordering::Acquire), self.capacity)
    }

    /// Books the refill due at `now_ns`, if any, and credits its tokens.
    /// Returns the booking made: the refill timestamp it found, the one it
    /// stored and the tokens it credited. Nothing is refilled when the rate or
    /// the capacity is zero. A booking that loses a race with another thread
    /// is retried, up to `u64::MAX` times; should every retry lose, nothing is
    /// refilled.
    fn try_refill(&self, now_ns: u64) -> (r: Option<(u64, u64, u64)>)
        ensures
            self.spec_refill_per_sec() == 0 || self.spec_capacity() == 0 ==> r is None,
            r matches Some((last, new_last, add)) ==> spec_refill_step(
                last,
                now_ns,
                self.spec_capacity(),
                self.spec_refill_per_sec(),
            ) == Some((new_last, add)),
    {
        if self.refill_per_sec == 0 || self.capacity == 0 {
            return None;
        }
        let mut attempts: u64 = 0;
        while attempts < u64::MAX
            decreases u64::MAX - attempts,
        {
            let last = self.last_refill_ns.load(Ordering::Acquire);
            match refill_step(last, now_ns, self.capacity, self.refill_per_sec) {
                None => {
                    return None;
                },
                Some((new_last, add)) => {
                    let booked = self.last_refill_ns.compare_exchange_weak(
                        last,
                        new_last,
                        Ordering::AcqRel,
                        Ordering::Acquire,
                    );
                    if booked.is_ok() {
                        let _ = credit_atomically(&self.tokens, add, self.capacity);
                        return Some((last, new_last, add));
                    }
                },
            }
            spin_hint();
            attempts = attempts + 1;
        }
        None
    }
}

impl RateLimiter<StdClock> {
    /// Creates a limiter using [`StdClock`].
    pub fn new(capacity: u64, refill_per_sec: u64) -> (s: Self)
        ensures
            s.spec_capacity() == capacity,
            s.spec_refill_per_sec() == refill_per_sec,
    {
        Self::with_clock(capacity, refill_per_sec, StdClock::new())
    }
}

} // verus!
