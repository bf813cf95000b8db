//! The token bucket's state transitions, as functions of plain values: what a
//! refill does to the refill timestamp, what it adds to the token count, what
//! taking tokens leaves, and how a count read is capped. The limiter reads its
//! shared state, hands the values read to these functions, and publishes their
//! results. The same functions, applied to a sequence of requests, give the
//! sequential model of a limiter over which its laws are stated.

use vstd::prelude::*;

use crate::math::{
    cost_of_tokens, lemma_charged_time_within_elapsed, lemma_cost_covers_tokens,
    lemma_earned_tokens_paid_by_time, lemma_floor_div_times_le, refill_tokens, spec_cost_of_tokens,
    spec_refill_tokens,
};

verus! {

use vstd::arithmetic::div_mod::{
    lemma_div_is_ordered_by_denominator, lemma_div_multiples_vanish_fancy,
    lemma_div_multiples_vanish_quotient, lemma_fundamental_div_mod,
    lemma_fundamental_div_mod_converse_div, lemma_mod_pos_bound,
};
use vstd::arithmetic::mul::lemma_mul_inequality;

/// The token count after `add` tokens are credited to `current` in a bucket
/// of `capacity`: the sum, capped at the capacity.
pub open spec fn spec_credit(current: u64, add: u64, capacity: u64) -> u64 {
    if current as int + add as int <= capacity as int {
        (current + add) as u64
    } else {
        capacity
    }
}

/// The token count left after taking `n` tokens from `current`, or `None`
/// when fewer than `n` are there: a take is all or nothing.
pub open spec fn spec_debit(current: u64, n: u64) -> Option<u64> {
    if current < n {
        None
    } else {
        Some((current - n) as u64)
    }
}

/// A token count as reported: the count, capped at the capacity.
pub open spec fn spec_clamp(current: u64, capacity: u64) -> u64 {
    if current < capacity {
        current
    } else {
        capacity
    }
}

/// The refill due when the clock reads `now_ns` and the last refill was
/// booked at `last_ns`, in a bucket of `capacity` refilled at
/// `refill_per_sec` tokens per second. `None` when the rate or the capacity
/// is zero, when no time has passed (or the clock went backwards), or when
/// the time passed has not yet earned a whole token. Otherwise the new refill
/// timestamp and the tokens earned: the timestamp moves forward by the time
/// that the earned tokens cost, rounded up, so every credited token is paid
/// for and the fraction of a token not yet earned stays pending.
pub open spec fn spec_refill_step(
    last_ns: u64,
    now_ns: u64,
    capacity: u64,
    refill_per_sec: u64,
) -> Option<(u64, u64)> {
    if refill_per_sec == 0 || capacity == 0 || now_ns <= last_ns {
        None
    } else {
        let add = spec_refill_tokens((now_ns - last_ns) as u64, refill_per_sec);
        if add == 0 {
            None
        } else {
            Some(((last_ns + spec_cost_of_tokens(add, refill_per_sec)) as u64, add))
        }
    }
}

/// Credits `add` tokens to a bucket that holds `current` tokens, without
/// going over `capacity`.
pub fn credit_tokens(current: u64, add: u64, capacity: u64) -> (r: u64)
    ensures
        r == spec_credit(current, add, capacity),
        r <= capacity,
{
    let sum = current.saturating_add(add);
    if sum < capacity {
        sum
    } else {
        capacity
    }
}

/// Takes `n` tokens from a bucket that holds `current` tokens, all or nothing.
pub fn debit_tokens(current: u64, n: u64) -> (r: Option<u64>)
    ensures
        r == spec_debit(current, n),
        r is None <==> current < n,
{
    if current < n {
        None
    } else {
        Some(current - n)
    }
}

/// Caps a token count read from the bucket at `capacity`.
pub fn clamp_count(current: u64, capacity: u64) -> (r: u64)
    ensures
        r == spec_clamp(current, capacity),
        r <= capacity,
{
    if current < capacity {
        current
    } else {
        capacity
    }
}

/// Decides the refill due at `now_ns` after a refill booked at `last_ns`.
pub fn refill_step(last_ns: u64, now_ns: u64, capacity: u64, refill_per_sec: u64) -> (r: Option<
    (u64, u64),
>)
    ensures
        r == spec_refill_step(last_ns, now_ns, capacity, refill_per_sec),
        refill_per_sec == 0 || capacity == 0 || now_ns <= last_ns ==> r is None,
        r matches Some((new_last, add)) ==> {
            &&& last_ns <= new_last <= now_ns
            &&& add > 0
            &&& add == spec_refill_tokens((now_ns - last_ns) as u64, refill_per_sec)
        },
{
    if refill_per_sec == 0 || capacity == 0 || now_ns <= last_ns {
        return None;
    }
    let elapsed = now_ns - last_ns;
    let add = refill_tokens(elapsed, refill_per_sec);
    if add == 0 {
        return None;
    }
    proof {
        lemma_charged_time_within_elapsed(elapsed, refill_per_sec);
    }
    let delta = cost_of_tokens(add, refill_per_sec);
    Some((last_ns + delta, add))
}

/// Every token that a refill credits is paid for by the time it books:
/// `add * 10^9 <= (new_last - last_ns) * refill_per_sec`. Unless the token
/// count saturated, less than one token's worth of time stays pending after
/// it: `(now_ns - new_last) * refill_per_sec < 10^9`.
pub proof fn lemma_booking_pays_for_tokens(
    last_ns: u64,
    now_ns: u64,
    capacity: u64,
    refill_per_sec: u64,
)
    ensures
        spec_refill_step(last_ns, now_ns, capacity, refill_per_sec) matches Some((new_last, add))
            ==> {
            &&& last_ns <= new_last <= now_ns
            &&& (add as int) * 1_000_000_000 <= (new_last - last_ns) * (refill_per_sec as int)
            &&& ((now_ns - last_ns) * (refill_per_sec as int)) / 1_000_000_000 <= u64::MAX ==> (
            now_ns - new_last) * (refill_per_sec as int) < 1_000_000_000
        },
{
    if refill_per_sec != 0 && capacity != 0 && now_ns > last_ns {
        let elapsed = (now_ns - last_ns) as u64;
        let add = spec_refill_tokens(elapsed, refill_per_sec);
        if add != 0 {
            let r = refill_per_sec as int;
            lemma_charged_time_within_elapsed(elapsed, refill_per_sec);
            lemma_earned_tokens_paid_by_time(elapsed, refill_per_sec);
            lemma_cost_covers_tokens(add, refill_per_sec);
            let cost = spec_cost_of_tokens(add, refill_per_sec) as int;
            let e = elapsed as int;
            assert((e - cost) * r == e * r - cost * r) by (nonlinear_arith);
        }
    }
}

/// The token count and refill timestamp after a refill at `now_ns`; nothing
/// changes when no refill is due.
pub open spec fn spec_refill(
    tokens: u64,
    last_ns: u64,
    now_ns: u64,
    capacity: u64,
    refill_per_sec: u64,
) -> (u64, u64) {
    match spec_refill_step(last_ns, now_ns, capacity, refill_per_sec) {
        None => (tokens, last_ns),
        Some((new_last, add)) => (spec_credit(tokens, add, capacity), new_last),
    }
}

/// A refill at the clock reading of the previous one changes nothing: the
/// previous refill left less than a token's worth of time pending (unless its
/// token count saturated).
pub proof fn lemma_refill_is_idempotent(
    tokens: u64,
    last_ns: u64,
    now_ns: u64,
    capacity: u64,
    refill_per_sec: u64,
)
    requires
        ((now_ns - last_ns) * (refill_per_sec as int)) / 1_000_000_000 <= u64::MAX,
    ensures
        ({
            let (t1, l1) = spec_refill(tokens, last_ns, now_ns, capacity, refill_per_sec);
            spec_refill(t1, l1, now_ns, capacity, refill_per_sec) == (t1, l1)
        }),
{
    lemma_booking_pays_for_tokens(last_ns, now_ns, capacity, refill_per_sec);
    if let Some((new_last, add)) = spec_refill_step(last_ns, now_ns, capacity, refill_per_sec) {
        if now_ns > new_last {
            let pending = (now_ns - new_last) as u64;
            assert(0 <= (pending as int) * (refill_per_sec as int)) by (nonlinear_arith);
            assert(spec_refill_tokens(pending, refill_per_sec) == 0);
        }
    }
}

/// The token count and refill timestamp after reads (refills with no takes)
/// at each clock reading in turn.
pub open spec fn spec_reads(
    tokens: u64,
    last_ns: u64,
    readings: Seq<u64>,
    capacity: u64,
    refill_per_sec: u64,
) -> (u64, u64)
    decreases readings.len(),
{
    if readings.len() == 0 {
        (tokens, last_ns)
    } else {
        let (t, l) = spec_reads(tokens, last_ns, readings.drop_last(), capacity, refill_per_sec);
        spec_refill(t, l, readings.last(), capacity, refill_per_sec)
    }
}

/// At a rate that divides a second into whole nanoseconds (`q * r == 10^9`),
/// scaling time by the rate and dividing by a second is dividing by `q`.
proof fn lemma_rate_scaling(x: int, r: int, q: int)
    requires
        0 <= x,
        0 < r,
        q * r == 1_000_000_000,
    ensures
        0 < q,
        (x * r) / 1_000_000_000 == x / q,
        x / q <= x,
        0 <= x / q,
{
    assert(0 < q) by (nonlinear_arith)
        requires
            0 < r,
            q * r == 1_000_000_000,
    ;
    lemma_div_multiples_vanish_quotient(r, x, q);
    assert(r * x == x * r) by (nonlinear_arith);
    assert(r * q == 1_000_000_000) by (nonlinear_arith)
        requires
            q * r == 1_000_000_000,
    ;
    lemma_div_is_ordered_by_denominator(x, 1, q);
    lemma_fundamental_div_mod(x, q);
    lemma_mod_pos_bound(x, q);
    assert(0 <= x / q) by (nonlinear_arith)
        requires
            0 <= x,
            0 < q,
            x == q * (x / q) + x % q,
            x % q < q,
    ;
}

/// At a rate that divides a second into whole nanoseconds, a refill after
/// `now_ns - last_ns` nanoseconds earns `(now_ns - last_ns) / q` tokens and
/// is charged exactly `q` nanoseconds for each.
proof fn lemma_exact_rate_step(last_ns: u64, now_ns: u64, refill_per_sec: u64, q: int)
    requires
        refill_per_sec > 0,
        q * refill_per_sec == 1_000_000_000,
        last_ns < now_ns,
    ensures
        spec_refill_tokens((now_ns - last_ns) as u64, refill_per_sec) as int == (now_ns - last_ns)
            / q,
        spec_cost_of_tokens(spec_refill_tokens((now_ns - last_ns) as u64, refill_per_sec), refill_per_sec)
            as int == ((now_ns - last_ns) / q) * q,
{
    let e = (now_ns - last_ns) as int;
    let r = refill_per_sec as int;
    lemma_rate_scaling(e, r, q);
    let add = e / q;
    lemma_floor_div_times_le(e, q);
    if add != 0 {
        assert(add * 1_000_000_000 + r - 1 == r * (add * q) + (r - 1)) by (nonlinear_arith)
            requires
                q * r == 1_000_000_000,
        ;
        lemma_div_multiples_vanish_fancy(add * q, r - 1, r);
        let earned = spec_refill_tokens((now_ns - last_ns) as u64, refill_per_sec);
        assert(earned as int == add);
        assert((earned as int * 1_000_000_000 + r - 1) / r == add * q);
        assert(add * q <= e);
    } else {
        assert(add * q == 0) by (nonlinear_arith)
            requires
                add == 0,
        ;
    }
}

/// Reads lose no time at a rate that divides a second into whole
/// nanoseconds: however the reads are spaced, with no takes in between, the
/// count after the last read at `T` is the starting count plus the tokens
/// that `T - last_ns` earns, `(T - last_ns) * rate / 10^9`, capped at the
/// capacity; and the refill timestamp has moved by exactly the time those
/// tokens take, so what is left over stays pending.
pub proof fn lemma_spaced_reads_lose_nothing(
    tokens: u64,
    last_ns: u64,
    readings: Seq<u64>,
    capacity: u64,
    refill_per_sec: u64,
)
    requires
        refill_per_sec > 0,
        capacity > 0,
        1_000_000_000int % (refill_per_sec as int) == 0,
        tokens <= capacity,
        forall|i: int| 0 <= i < readings.len() ==> last_ns <= #[trigger] readings[i],
        forall|i: int, j: int|
            0 <= i <= j < readings.len() ==> #[trigger] readings[i] <= #[trigger] readings[j],
    ensures
        ({
            let end = if readings.len() == 0 {
                last_ns
            } else {
                readings.last()
            };
            let earned = ((end - last_ns) * (refill_per_sec as int)) / 1_000_000_000int;
            let (t, l) = spec_reads(tokens, last_ns, readings, capacity, refill_per_sec);
            &&& t == (if tokens + earned <= capacity {
                tokens + earned
            } else {
                capacity as int
            })
            &&& l == last_ns + earned * (1_000_000_000int / (refill_per_sec as int))
        }),
    decreases readings.len(),
{
    let r = refill_per_sec as int;
    let q = 1_000_000_000int / r;
    lemma_fundamental_div_mod(1_000_000_000int, r);
    assert(q * r == 1_000_000_000) by (nonlinear_arith)
        requires
            1_000_000_000 == r * q + 1_000_000_000int % r,
            1_000_000_000int % r == 0,
    ;
    if readings.len() == 0 {
        lemma_rate_scaling(0, r, q);
    } else {
        let prefix = readings.drop_last();
        assert forall|i: int| 0 <= i < prefix.len() implies last_ns <= #[trigger] prefix[i] by {
            assert(prefix[i] == readings[i]);
        }
        assert forall|i: int, j: int| 0 <= i <= j < prefix.len() implies #[trigger] prefix[i]
            <= #[trigger] prefix[j] by {
            assert(prefix[i] == readings[i]);
            assert(prefix[j] == readings[j]);
        }
        lemma_spaced_reads_lose_nothing(tokens, last_ns, prefix, capacity, refill_per_sec);
        let before = if prefix.len() == 0 {
            last_ns
        } else {
            prefix.last()
        };
        let now = readings.last();
        assert(now == readings[readings.len() - 1]);
        assert(before <= now) by {
            if prefix.len() > 0 {
                assert(prefix.last() == readings[readings.len() - 2]);
            }
        }
        assert(last_ns <= now);
        let (t, l) = spec_reads(tokens, last_ns, prefix, capacity, refill_per_sec);
        let a = ((before - last_ns) * r) / 1_000_000_000;
        lemma_rate_scaling(before - last_ns, r, q);
        lemma_rate_scaling(now - last_ns, r, q);
        lemma_floor_div_times_le(before - last_ns, q);
        assert(l == last_ns + a * q);
        assert(l <= before);
        if now <= l {
            assert(now == before);
        } else {
            lemma_exact_rate_step(l, now, refill_per_sec, q);
            let e = now - l;
            let add = e / q;
            lemma_fundamental_div_mod(e, q);
            lemma_mod_pos_bound(e, q);
            assert(now - last_ns == (a + add) * q + e % q) by (nonlinear_arith)
                requires
                    now - last_ns == a * q + e,
                    e == q * add + e % q,
            ;
            lemma_fundamental_div_mod_converse_div(now - last_ns, q, a + add, e % q);
            assert((a + add) * q == a * q + add * q) by (nonlinear_arith);
        }
    }
}

/// A request to a limiter, as the model sees it: taking `n` tokens
/// (`allow_n`, `allow`) or reading the count (`remaining`, `snapshot`), with
/// the clock reading at which it is made.
pub enum Request {
    /// Take `n` tokens, all or nothing.
    Take { now_ns: u64, n: u64 },
    /// Read the token count; this only refills.
    Observe { now_ns: u64 },
}

impl Request {
    /// The clock reading at which the request is made.
    pub open spec fn at(self) -> u64 {
        match self {
            Request::Take { now_ns, .. } => now_ns,
            Request::Observe { now_ns } => now_ns,
        }
    }
}

/// One request applied to a bucket holding `tokens`, last refilled at
/// `last_ns`: the new count, the new refill timestamp and the tokens granted.
/// Taking no tokens, or more than the capacity, changes nothing; otherwise a
/// refill comes first and then the take, all or nothing.
pub open spec fn spec_apply(
    tokens: u64,
    last_ns: u64,
    request: Request,
    capacity: u64,
    refill_per_sec: u64,
) -> (u64, u64, nat) {
    match request {
        Request::Observe { now_ns } => {
            let (t, l) = spec_refill(tokens, last_ns, now_ns, capacity, refill_per_sec);
            (t, l, 0)
        },
        Request::Take { now_ns, n } => {
            if n == 0 || n > capacity {
                (tokens, last_ns, 0)
            } else {
                let (t, l) = spec_refill(tokens, last_ns, now_ns, capacity, refill_per_sec);
                match spec_debit(t, n) {
                    None => (t, l, 0),
                    Some(left) => (left, l, n as nat),
                }
            }
        },
    }
}

/// A sequence of requests applied in order: the final count, the final
/// refill timestamp and the tokens granted in all.
pub open spec fn spec_run(
    tokens: u64,
    last_ns: u64,
    requests: Seq<Request>,
    capacity: u64,
    refill_per_sec: u64,
) -> (u64, u64, nat)
    decreases requests.len(),
{
    if requests.len() == 0 {
        (tokens, last_ns, 0)
    } else {
        let (t, l, granted) = spec_run(
            tokens,
            last_ns,
            requests.drop_last(),
            capacity,
            refill_per_sec,
        );
        let (t2, l2, more) = spec_apply(t, l, requests.last(), capacity, refill_per_sec);
        (t2, l2, granted + more)
    }
}

/// What a refill credits is paid for by the time it books, and the count
/// stays within the capacity.
proof fn lemma_refill_paid(
    tokens: u64,
    last_ns: u64,
    now_ns: u64,
    capacity: u64,
    refill_per_sec: u64,
)
    requires
        tokens <= capacity,
    ensures
        ({
            let (t, l) = spec_refill(tokens, last_ns, now_ns, capacity, refill_per_sec);
            &&& (t as int) * 1_000_000_000 <= (tokens as int) * 1_000_000_000 + (l - last_ns) * (
            refill_per_sec as int)
            &&& last_ns <= l
            &&& l == last_ns || l <= now_ns
            &&& t <= capacity
        }),
{
    lemma_booking_pays_for_tokens(last_ns, now_ns, capacity, refill_per_sec);
    match spec_refill_step(last_ns, now_ns, capacity, refill_per_sec) {
        None => {
            assert((last_ns - last_ns) * (refill_per_sec as int) == 0);
        },
        Some((new_last, add)) => {
            let t = spec_credit(tokens, add, capacity);
            assert(t <= tokens + add);
            assert((t as int) * 1_000_000_000 <= (tokens as int) * 1_000_000_000 + (add as int)
                * 1_000_000_000);
        },
    }
}

/// One request grants no more than the tokens it finds plus what the time it
/// books pays for.
proof fn lemma_apply_paid(
    tokens: u64,
    last_ns: u64,
    request: Request,
    capacity: u64,
    refill_per_sec: u64,
    now_ns: u64,
)
    requires
        tokens <= capacity,
        last_ns <= now_ns,
        request.at() <= now_ns,
    ensures
        ({
            let (t, l, granted) = spec_apply(tokens, last_ns, request, capacity, refill_per_sec);
            &&& (granted + t) * 1_000_000_000 <= (tokens as int) * 1_000_000_000 + (l - last_ns) * (
            refill_per_sec as int)
            &&& last_ns <= l <= now_ns
            &&& t <= capacity
        }),
{
    lemma_refill_paid(tokens, last_ns, request.at(), capacity, refill_per_sec);
    assert(0 * (refill_per_sec as int) == 0);
}

/// No sequence of requests is granted more than a full bucket plus what the
/// rate earns over the time elapsed: starting from `tokens <= capacity` with
/// the last refill at `last_ns`, if no request reads the clock after `now_ns`,
/// the tokens granted in all are at most
/// `tokens + (now_ns - last_ns) * refill_per_sec / 10^9`. With a rate of zero
/// that is the starting count.
pub proof fn lemma_grants_within_capacity_and_rate(
    tokens: u64,
    last_ns: u64,
    requests: Seq<Request>,
    capacity: u64,
    refill_per_sec: u64,
    now_ns: u64,
)
    requires
        tokens <= capacity,
        last_ns <= now_ns,
        forall|i: int| 0 <= i < requests.len() ==> (#[trigger] requests[i]).at() <= now_ns,
    ensures
        ({
            let (t, l, granted) = spec_run(tokens, last_ns, requests, capacity, refill_per_sec);
            &&& (granted + t) * 1_000_000_000 <= (tokens as int) * 1_000_000_000 + (l - last_ns) * (
            refill_per_sec as int)
            &&& last_ns <= l <= now_ns
            &&& t <= capacity
            &&& granted * 1_000_000_000 <= (tokens as int) * 1_000_000_000 + (now_ns - last_ns) * (
            refill_per_sec as int)
        }),
    decreases requests.len(),
{
    let r = refill_per_sec as int;
    if requests.len() == 0 {
        assert(0 * r == 0);
        assert(0 <= (now_ns - last_ns) * r) by (nonlinear_arith)
            requires
                now_ns >= last_ns,
                r >= 0,
        ;
    } else {
        let prefix = requests.drop_last();
        assert forall|i: int| 0 <= i < prefix.len() implies (#[trigger] prefix[i]).at() <= now_ns by {
            assert(prefix[i] == requests[i]);
        }
        lemma_grants_within_capacity_and_rate(
            tokens,
            last_ns,
            prefix,
            capacity,
            refill_per_sec,
            now_ns,
        );
        let (t, l, granted) = spec_run(tokens, last_ns, prefix, capacity, refill_per_sec);
        assert(requests.last() == requests[requests.len() - 1]);
        lemma_apply_paid(t, l, requests.last(), capacity, refill_per_sec, now_ns);
        let (t2, l2, more) = spec_apply(t, l, requests.last(), capacity, refill_per_sec);
        assert((l - last_ns) * r + (l2 - l) * r == (l2 - last_ns) * r) by (nonlinear_arith);
        lemma_mul_inequality(l2 - last_ns, now_ns - last_ns, r);
    }
}

/// No transition takes the token count out of `0..=capacity`: a credit is
/// capped at the capacity, and a take only lowers the count.
pub proof fn lemma_transitions_stay_within_capacity(current: u64, amount: u64, capacity: u64)
    requires
        current <= capacity,
    ensures
        spec_credit(current, amount, capacity) <= capacity,
        spec_credit(current, amount, capacity) >= current,
        spec_debit(current, amount) matches Some(left) ==> left <= current <= capacity,
        spec_clamp(current, capacity) == current,
{
}

} // verus!
