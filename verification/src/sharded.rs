//! A fixed set of independent limiters, selected by a hash.

use vstd::prelude::*;

use core::hash::{Hash, Hasher};
use std::collections::hash_map::DefaultHasher;

use crate::clock::{Clock, StdClock};
use crate::limiter::{RateLimiter, Snapshot};

verus! {

use vstd::arithmetic::div_mod::lemma_mod_breakdown;

/// A fixed-size shard set of independent [`RateLimiter`] instances.
///
/// Sharding is a recommended pattern for high-contention workloads
/// (for example per-key or per-tenant limits).
///
/// `N` is the number of shards. `N=0` is allowed and treated as disabled;
/// all `allow*` calls return `false`, and `remaining*` returns `0`.
pub struct ShardedRateLimiter<C: Clock + Clone, const N: usize> {
    shards: [RateLimiter<C>; N],
}

/// The shard that a hash selects among `n` shards: the hash, taken as a
/// `usize`, modulo `n`.
pub open spec fn spec_shard_index(hash: u64, n: usize) -> usize {
    ((hash as usize) % n) as usize
}

/// Whether `x` is a power of two, that is non-zero with a single bit set.
fn is_power_of_two(x: usize) -> (r: bool)
    ensures
        r == (x != 0 && x & ((x - 1) as usize) == 0),
{
    x != 0 && x & (x - 1) == 0
}

/// For a power of two `n`, masking with `n - 1` is taking the remainder by `n`.
proof fn lemma_mask_is_mod(h: usize, n: usize)
    requires
        n != 0,
        n & ((n - 1) as usize) == 0,
    ensures
        h & ((n - 1) as usize) == h % n,
    decreases n,
{
    if n == 1 {
        assert(h & 0usize == 0usize) by (bit_vector);
    } else {
        let half: usize = n / 2;
        let h2: usize = h / 2;
        assert(n % 2 == 0 && half != 0 && half & ((half - 1) as usize) == 0 && h & ((n - 1) as usize)
            == (h2 & ((half - 1) as usize)) * 2 + h % 2) by (bit_vector)
            requires
                n > 1,
                n & ((n - 1) as usize) == 0,
                half == n / 2,
                h2 == h / 2,
        ;
        lemma_mask_is_mod(h2, half);
        lemma_mod_breakdown(h as int, 2, half as int);
        assert(2 * half == n);
    }
}

/// One shard, configured as given, with its own copy of the clock.
fn new_shard<C: Clock + Clone>(capacity: u64, refill_per_sec: u64, clock: &C) -> (s: RateLimiter<C>)
    ensures
        s.spec_capacity() == capacity,
        s.spec_refill_per_sec() == refill_per_sec,
{
    RateLimiter::with_clock(capacity, refill_per_sec, clock.clone())
}

/// Calls `core::array::from_fn`, which fills each of the `N` slots with what
/// the closure returns for that index; the closure calls [`new_shard`], so
/// every shard has the configuration that `new_shard` ensures.
#[verifier::external_body]
fn build_shards<C: Clock + Clone, const N: usize>(
    capacity: u64,
    refill_per_sec: u64,
    clock: &C,
) -> (shards: [RateLimiter<C>; N])
    ensures
        forall|i: int|
            0 <= i < N ==> (#[trigger] shards@[i]).spec_capacity() == capacity
                && shards@[i].spec_refill_per_sec() == refill_per_sec,
{
    core::array::from_fn(|_| new_shard(capacity, refill_per_sec, clock))
}

/// Calls `Hash::hash`, which feeds `key` to `state`. What it writes depends
/// on the two trait impls, so nothing is stated of it.
#[verifier::external_body]
fn feed_key<K: Hash, H: Hasher>(key: &K, state: &mut H) {
    key.hash(state)
}

/// Calls `Hasher::finish`: the digest of what `state` was fed. It depends on
/// the hasher's impl, so nothing is stated of it.
#[verifier::external_body]
fn hasher_digest<H: Hasher>(state: &H) -> u64 {
    state.finish()
}

impl<C: Clock + Clone, const N: usize> ShardedRateLimiter<C, N> {
    /// The shard at index `i`.
    pub closed spec fn spec_shard(&self, i: int) -> RateLimiter<C> {
        self.shards@[i]
    }

    /// Creates a sharded limiter with a custom clock.
    ///
    /// Each shard has identical `(capacity, refill_per_sec)` configuration.
    pub fn with_clock(capacity: u64, refill_per_sec: u64, clock: C) -> (s: Self)
        ensures
            forall|i: int|
                0 <= i < N ==> (#[trigger] s.spec_shard(i)).spec_capacity() == capacity
                    && s.spec_shard(i).spec_refill_per_sec() == refill_per_sec,
    {
        ShardedRateLimiter { shards: build_shards(capacity, refill_per_sec, &clock) }
    }

    /// Returns the number of shards.
    pub fn shard_count(&self) -> (r: usize)
        ensures
            r == N,
    {
        N
    }

    /// Tries to take one token from the shard selected by `hash`.
    pub fn allow_by_hash(&self, hash: u64) -> (r: bool)
        ensures
            N == 0 ==> !r,
            N > 0 && self.spec_shard(spec_shard_index(hash, N) as int).spec_capacity() == 0 ==> !r,
    {
        match self.shard_for_hash(hash) {
            Some(limiter) => limiter.allow(),
            None => false,
        }
    }

    /// Tries to take `n` tokens atomically from the shard selected by `hash`.
    pub fn allow_n_by_hash(&self, hash: u64, n: u64) -> (r: bool)
        ensures
            N == 0 ==> !r,
            N > 0 && n == 0 ==> r,
            N > 0 && n > self.spec_shard(spec_shard_index(hash, N) as int).spec_capacity() ==> !r,
    {
        match self.shard_for_hash(hash) {
            Some(limiter) => limiter.allow_n(n),
            None => false,
        }
    }

    /// Returns remaining tokens from the shard selected by `hash`.
    pub fn remaining_by_hash(&self, hash: u64) -> (r: u64)
        ensures
            N == 0 ==> r == 0,
            N > 0 ==> r <= self.spec_shard(spec_shard_index(hash, N) as int).spec_capacity(),
    {
        match self.shard_for_hash(hash) {
            Some(limiter) => limiter.remaining(),
            None => 0,
        }
    }

    /// Returns a snapshot for the shard selected by `hash`.
    pub fn snapshot_by_hash(&self, hash: u64) -> (r: Option<Snapshot>)
        ensures
            r is Some <==> N > 0,
            r matches Some(s) ==> {
                let shard = self.spec_shard(spec_shard_index(hash, N) as int);
                &&& s.tokens <= s.capacity
                &&& s.capacity == shard.spec_capacity()
                &&& s.refill_per_sec == shard.spec_refill_per_sec()
            },
    {
        match self.shard_for_hash(hash) {
            Some(limiter) => Some(limiter.snapshot()),
            None => None,
        }
    }

    /// Returns a shard by index.
    pub fn shard(&self, index: usize) -> (r: Option<&RateLimiter<C>>)
        ensures
            r is Some <==> index < N,
            r matches Some(s) ==> *s == self.spec_shard(index as int),
    {
        if index < N {
            Some(&self.shards[index])
        } else {
            None
        }
    }

    /// Returns a shard selected by a precomputed hash.
    pub fn shard_for_hash(&self, hash: u64) -> (r: Option<&RateLimiter<C>>)
        ensures
            r is Some <==> N > 0,
            r matches Some(s) ==> *s == self.spec_shard(spec_shard_index(hash, N) as int),
    {
        match self.index_for_hash(hash) {
            Some(index) => self.shard(index),
            None => None,
        }
    }

    /// The index of the shard that `hash` selects, or `None` when there are no
    /// shards. A power-of-two shard count takes the low bits of the hash,
    /// which is the same index as the remainder.
    fn index_for_hash(&self, hash: u64) -> (r: Option<usize>)
        ensures
            N == 0 ==> r is None,
            N > 0 ==> r == Some(spec_shard_index(hash, N)),
    {
        if N == 0 {
            return None;
        }
        let h = hash as usize;
        let idx = if is_power_of_two(N) {
            proof {
                lemma_mask_is_mod(h, N);
            }
            h & (N - 1)
        } else {
            h % N
        };
        Some(idx)
    }

    /// Hashes a key to `u64` using a caller-provided hasher implementation:
    /// the key is fed to a fresh `H::default()`, whose digest is returned.
    pub fn hash_key_with<H: Hasher + Default, K: Hash>(&self, key: &K) -> u64 {
        let mut hasher = H::default();
        feed_key(key, &mut hasher);
        hasher_digest(&hasher)
    }
}

impl<const N: usize> ShardedRateLimiter<StdClock, N> {
    /// Creates a sharded limiter using [`StdClock`].
    pub fn new(capacity: u64, refill_per_sec: u64) -> (s: Self)
        ensures
            forall|i: int|
                0 <= i < N ==> (#[trigger] s.spec_shard(i)).spec_capacity() == capacity
                    && s.spec_shard(i).spec_refill_per_sec() == refill_per_sec,
    {
        Self::with_clock(capacity, refill_per_sec, StdClock::new())
    }

    /// Tries to take one token from a shard selected by a key hash.
    pub fn allow_by_key<K: Hash>(&self, key: &K) -> (r: bool)
        ensures
            N == 0 ==> !r,
            (forall|i: int| 0 <= i < N ==> (#[trigger] self.spec_shard(i)).spec_capacity() == 0)
                ==> !r,
    {
        let hash = self.hash_key_with::<DefaultHasher, K>(key);
        proof {
            // The shard that `hash` selects witnesses the clauses over all shards.
            if N > 0 {
                let selected = self.spec_shard(spec_shard_index(hash, N) as int);
            }
        }
        self.allow_by_hash(hash)
    }

    /// Tries to take `n` tokens atomically from a shard selected by a key hash.
    pub fn allow_n_by_key<K: Hash>(&self, key: &K, n: u64) -> (r: bool)
        ensures
            N == 0 ==> !r,
            N > 0 && n == 0 ==> r,
            (forall|i: int| 0 <= i < N ==> n > (#[trigger] self.spec_shard(i)).spec_capacity())
                ==> !r,
    {
        let hash = self.hash_key_with::<DefaultHasher, K>(key);
        proof {
            // The shard that `hash` selects witnesses the clauses over all shards.
            if N > 0 {
                let selected = self.spec_shard(spec_shard_index(hash, N) as int);
            }
        }
        self.allow_n_by_hash(hash, n)
    }

    /// Returns remaining tokens from a shard selected by a key hash.
    pub fn remaining_by_key<K: Hash>(&self, key: &K) -> (r: u64)
        ensures
            N == 0 ==> r == 0,
            N > 0 ==> exists|i: int|
                0 <= i < N && r <= (#[trigger] self.spec_shard(i)).spec_capacity(),
    {
        let hash = self.hash_key_with::<DefaultHasher, K>(key);
        let r = self.remaining_by_hash(hash);
        proof {
            // The shard that `hash` selects witnesses the clauses over all shards.
            if N > 0 {
                let selected = self.spec_shard(spec_shard_index(hash, N) as int);
            }
        }
        r
    }

    /// Returns a snapshot from a shard selected by a key hash.
    pub fn snapshot_by_key<K: Hash>(&self, key: &K) -> (r: Option<Snapshot>)
        ensures
            r is Some <==> N > 0,
            r matches Some(s) ==> {
                &&& s.tokens <= s.capacity
                &&& exists|i: int|
                    0 <= i < N && s.capacity == (#[trigger] self.spec_shard(i)).spec_capacity()
                        && s.refill_per_sec == self.spec_shard(i).spec_refill_per_sec()
            },
    {
        let hash = self.hash_key_with::<DefaultHasher, K>(key);
        let r = self.snapshot_by_hash(hash);
        proof {
            // The shard that `hash` selects witnesses the clauses over all shards.
            if N > 0 {
                let selected = self.spec_shard(spec_shard_index(hash, N) as int);
            }
        }
        r
    }
}

} // verus!
