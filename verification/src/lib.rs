//! A minimal, auditable, lock-free token bucket rate limiter, with its
//! refill arithmetic and its state transitions stated and proved.

pub mod bucket;
pub mod clock;
pub mod limiter;
pub mod math;
pub mod sharded;

pub use math::{cost_of_tokens, elapsed_for_tokens, refill_tokens};
pub use bucket::{clamp_count, credit_tokens, debit_tokens, refill_step};
pub use clock::{Clock, StdClock};
pub use limiter::{RateLimiter, Snapshot};
pub use sharded::ShardedRateLimiter;
