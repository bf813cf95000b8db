use std::sync::atomic::{AtomicU64, Ordering};

use rate_limit_core::{Clock, RateLimiter, ShardedRateLimiter, StdClock};

#[derive(Clone)]
struct FixedClock(u64);

impl Clock for FixedClock {
    fn now_ns(&self) -> u64 {
        self.0
    }
}

#[test]
fn readme_batch_example() {
    let limiter = RateLimiter::new(1000, 100);
    assert!(limiter.allow_n(100));
    assert_eq!(limiter.remaining(), 900);
}

#[test]
fn readme_minimal_example() {
    let limiter = RateLimiter::new(10, 5);
    assert!(limiter.allow());
    assert_eq!(limiter.remaining(), 9);
}

#[test]
fn readme_allow_n_refusal_keeps_tokens() {
    let limiter = RateLimiter::new(100, 10);
    assert!(limiter.allow_n(10));
    assert_eq!(limiter.remaining(), 90);

    assert!(!limiter.allow_n(100));
    assert_eq!(limiter.remaining(), 90);
}

#[test]
fn fixed_clock_example_drains_three() {
    let limiter = RateLimiter::with_clock(3, 0, FixedClock(0));
    assert!(limiter.allow());
    assert!(limiter.allow());
    assert!(limiter.allow());
    assert!(!limiter.allow());
}

#[test]
fn readme_sharding_example() {
    let limiter = ShardedRateLimiter::<_, 64>::new(10_000, 1_000);
    let allowed = limiter.allow_by_key(&"tenant:42");
    assert!(allowed);
}

#[test]
fn allow_n_above_capacity_is_refused_even_when_full() {
    let limiter = RateLimiter::with_clock(5, 1_000, FixedClock(7));
    assert!(!limiter.allow_n(6));
    assert_eq!(limiter.remaining(), 5);
}

#[test]
fn snapshot_reports_configuration_and_start_time() {
    let limiter = RateLimiter::with_clock(8, 2, FixedClock(42));
    let snapshot = limiter.snapshot();
    assert_eq!(snapshot.tokens, 8);
    assert_eq!(snapshot.capacity, 8);
    assert_eq!(snapshot.refill_per_sec, 2);
    assert_eq!(snapshot.last_refill_ns, 42);
}

#[test]
fn shards_all_share_the_configuration() {
    let limiter = ShardedRateLimiter::<_, 5>::with_clock(7, 3, FixedClock(0));
    for index in 0..5 {
        let shard = limiter.shard(index).expect("shard in range");
        assert_eq!(shard.capacity(), 7);
        assert_eq!(shard.refill_per_sec(), 3);
        assert_eq!(shard.remaining(), 7);
    }
    assert!(limiter.shard(5).is_none());
}

#[test]
fn power_of_two_shards_route_by_remainder() {
    let limiter = ShardedRateLimiter::<_, 8>::with_clock(1, 0, FixedClock(0));
    assert!(limiter.allow_by_hash(13)); // 13 % 8 == 5
    assert!(!limiter.allow_by_hash(5));
    assert_eq!(limiter.remaining_by_hash(21), 0);
    assert_eq!(limiter.remaining_by_hash(4), 1);
}

#[test]
fn std_clock_readings_do_not_decrease() {
    let clock = StdClock::new();
    let first = clock.now_ns();
    let mut spin = 0u64;
    for i in 0..100_000u64 {
        spin = spin.wrapping_add(i);
    }
    assert!(spin > 0);
    let second = clock.now_ns();
    assert!(second >= first);
}

struct SteppedClock {
    now: AtomicU64,
    reads: AtomicU64,
}

impl Clock for &SteppedClock {
    fn now_ns(&self) -> u64 {
        self.reads.fetch_add(1, Ordering::SeqCst);
        self.now.load(Ordering::SeqCst)
    }
}

#[test]
fn repeated_remaining_at_one_reading_grants_nothing_extra() {
    let clock = SteppedClock {
        now: AtomicU64::new(0),
        reads: AtomicU64::new(0),
    };
    let limiter = RateLimiter::with_clock(10, 7, &clock);
    assert!(limiter.allow_n(10));
    clock.now.store(285_714_285, Ordering::SeqCst);
    assert_eq!(limiter.remaining(), 1);
    assert_eq!(limiter.remaining(), 1);
    assert!(limiter.allow());
    assert!(!limiter.allow());
}

#[test]
fn zero_rate_takes_do_not_read_the_clock() {
    let clock = SteppedClock {
        now: AtomicU64::new(0),
        reads: AtomicU64::new(0),
    };
    let limiter = RateLimiter::with_clock(5, 0, &clock);
    let reads_after_creation = clock.reads.load(Ordering::SeqCst);
    for _ in 0..5 {
        assert!(limiter.allow());
    }
    assert!(!limiter.allow_n(2));
    assert_eq!(clock.reads.load(Ordering::SeqCst), reads_after_creation);
}

#[test]
fn std_clock_default_drives_a_limiter() {
    let limiter = RateLimiter::with_clock(3, 0, StdClock::default());
    assert!(limiter.allow());
    assert_eq!(limiter.remaining(), 2);
}
