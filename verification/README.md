# rate_limit_core

A minimal, lock-free token bucket rate limiter whose arithmetic and state
transitions are proved with Verus.

- `src/math.rs`: refill arithmetic (tokens earned by elapsed time, rounded
  down; time that tokens take, rounded down; their full cost, rounded up),
  with laws on rounding, monotonicity and whole seconds.
- `src/bucket.rs`: the bucket's transitions on plain values (credit, all or
  nothing debit, count clamp, refill booking) and a sequential model of a
  limiter built from them, with its laws: every credited token is paid for
  by booked time, a repeated refill adds nothing, the count stays within the
  capacity, and no run of requests is granted more than a full bucket plus
  what the rate earns. These laws are proved of the model; the limiter's
  token count and timestamp live in atomics whose values no contract can
  name, so they are not proved of `RateLimiter` itself.
- `src/limiter.rs`: `RateLimiter`, which applies those transitions to its
  atomic state, and `Snapshot`.
- `src/sharded.rs`: `ShardedRateLimiter`, a fixed array of limiters selected
  by hash.
- `src/clock.rs`: the `Clock` trait and `StdClock`.

The crate needs `std`: `StdClock` reads `std::time::Instant`.
