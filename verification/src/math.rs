//! Fixed-point refill arithmetic: how many tokens a span of time earns, and
//! how much time a number of tokens costs, at a rate given in tokens per second.

use vstd::prelude::*;

verus! {

use vstd::arithmetic::div_mod::{
    lemma_div_by_multiple, lemma_div_is_ordered, lemma_fundamental_div_mod, lemma_mod_pos_bound,
};
use vstd::arithmetic::mul::lemma_mul_inequality;

/// Nanoseconds in one second.
pub const NANOS_PER_SEC: u128 = 1_000_000_000;

/// `x` clamped into the range of `u64`.
pub open spec fn saturate_u64(x: int) -> u64 {
    if x > u64::MAX {
        u64::MAX
    } else {
        x as u64
    }
}

/// Tokens earned in `elapsed_ns` nanoseconds at `refill_per_sec` tokens per
/// second: the floor of `elapsed_ns * refill_per_sec / 10^9`, saturated at `u64::MAX`.
pub open spec fn spec_refill_tokens(elapsed_ns: u64, refill_per_sec: u64) -> u64 {
    if elapsed_ns == 0 || refill_per_sec == 0 {
        0
    } else {
        saturate_u64((elapsed_ns as int * refill_per_sec as int) / 1_000_000_000)
    }
}

/// Nanoseconds that `tokens` tokens take at `refill_per_sec` tokens per
/// second: the floor of `tokens * 10^9 / refill_per_sec`, saturated at
/// `u64::MAX`.
pub open spec fn spec_elapsed_for_tokens(tokens: u64, refill_per_sec: u64) -> u64 {
    if tokens == 0 || refill_per_sec == 0 {
        0
    } else {
        saturate_u64((tokens as int * 1_000_000_000) / refill_per_sec as int)
    }
}

/// Nanoseconds that `tokens` tokens cost in full at `refill_per_sec` tokens
/// per second: the ceiling of `tokens * 10^9 / refill_per_sec`, that is the least whole
/// number of nanoseconds in which the rate earns them, saturated at `u64::MAX`.
pub open spec fn spec_cost_of_tokens(tokens: u64, refill_per_sec: u64) -> u64 {
    if tokens == 0 || refill_per_sec == 0 {
        0
    } else {
        saturate_u64(
            (tokens as int * 1_000_000_000 + refill_per_sec as int - 1) / refill_per_sec as int,
        )
    }
}

proof fn lemma_u64_product_fits_u128(a: u64, b: u64)
    ensures
        (a as int) * (b as int) <= u128::MAX,
{
    assert((a as int) * (b as int) <= (u64::MAX as int) * (u64::MAX as int)) by (nonlinear_arith)
        requires
            0 <= a <= u64::MAX,
            0 <= b <= u64::MAX,
    ;
}

/// Computes the tokens earned in `elapsed_ns` nanoseconds at `refill_per_sec`
/// tokens per second, rounding down.
pub fn refill_tokens(elapsed_ns: u64, refill_per_sec: u64) -> (r: u64)
    ensures
        r == spec_refill_tokens(elapsed_ns, refill_per_sec),
{
    if elapsed_ns == 0 || refill_per_sec == 0 {
        return 0;
    }
    proof {
        lemma_u64_product_fits_u128(elapsed_ns, refill_per_sec);
    }
    let product: u128 = (elapsed_ns as u128) * (refill_per_sec as u128);
    let produced: u128 = product / NANOS_PER_SEC;
    if produced > u64::MAX as u128 {
        u64::MAX
    } else {
        produced as u64
    }
}

/// Computes the nanoseconds that `tokens` tokens take at `refill_per_sec`
/// tokens per second, rounding down.
pub fn elapsed_for_tokens(tokens: u64, refill_per_sec: u64) -> (r: u64)
    ensures
        r == spec_elapsed_for_tokens(tokens, refill_per_sec),
{
    if tokens == 0 || refill_per_sec == 0 {
        return 0;
    }
    proof {
        lemma_u64_product_fits_u128(tokens, 1_000_000_000u64);
    }
    let scaled: u128 = (tokens as u128) * NANOS_PER_SEC;
    let elapsed: u128 = scaled / (refill_per_sec as u128);
    if elapsed > u64::MAX as u128 {
        u64::MAX
    } else {
        elapsed as u64
    }
}

/// Computes the nanoseconds that `tokens` tokens cost in full at
/// `refill_per_sec` tokens per second, rounding up, so that time charged at
/// this cost pays for every token.
pub fn cost_of_tokens(tokens: u64, refill_per_sec: u64) -> (r: u64)
    ensures
        r == spec_cost_of_tokens(tokens, refill_per_sec),
{
    if tokens == 0 || refill_per_sec == 0 {
        return 0;
    }
    assert(tokens as int * 1_000_000_000 <= u64::MAX as int * 1_000_000_000) by (nonlinear_arith)
        requires
            tokens <= u64::MAX,
    ;
    let scaled: u128 = (tokens as u128) * NANOS_PER_SEC + (refill_per_sec as u128 - 1);
    let elapsed: u128 = scaled / (refill_per_sec as u128);
    if elapsed > u64::MAX as u128 {
        u64::MAX
    } else {
        elapsed as u64
    }
}

/// Dividing by a positive `d` and multiplying back never exceeds the start:
/// `(x / d) * d <= x` for `x >= 0`.
pub proof fn lemma_floor_div_times_le(x: int, d: int)
    requires
        0 <= x,
        0 < d,
    ensures
        (x / d) * d <= x,
{
    lemma_fundamental_div_mod(x, d);
    lemma_mod_pos_bound(x, d);
    assert(d * (x / d) == (x / d) * d) by (nonlinear_arith);
}

/// More elapsed time never earns fewer tokens: `spec_refill_tokens` is
/// monotonic in the elapsed time, for every rate.
pub proof fn lemma_refill_tokens_monotonic(earlier_ns: u64, later_ns: u64, refill_per_sec: u64)
    requires
        earlier_ns <= later_ns,
    ensures
        spec_refill_tokens(earlier_ns, refill_per_sec) <= spec_refill_tokens(
            later_ns,
            refill_per_sec,
        ),
{
    if earlier_ns != 0 && refill_per_sec != 0 {
        lemma_mul_inequality(earlier_ns as int, later_ns as int, refill_per_sec as int);
        lemma_div_is_ordered(
            earlier_ns as int * refill_per_sec as int,
            later_ns as int * refill_per_sec as int,
            1_000_000_000,
        );
    }
}

/// Rounding up a division: `q = (x + d - 1) / d` is the least `q` with
/// `q * d >= x`.
proof fn lemma_ceil_div(x: int, d: int)
    requires
        0 <= x,
        0 < d,
    ensures
        ((x + d - 1) / d) * d >= x,
        ((x + d - 1) / d) * d < x + d,
        (x + d - 1) / d >= 0,
{
    let y = x + d - 1;
    lemma_fundamental_div_mod(y, d);
    lemma_mod_pos_bound(y, d);
    assert(d * (y / d) == (y / d) * d) by (nonlinear_arith);
    assert((y / d) >= 0) by (nonlinear_arith)
        requires
            y >= 0,
            d > 0,
            d * (y / d) + y % d == y,
            y % d < d,
    ;
}

/// The tokens earned in `elapsed_ns` are paid for by it: their worth in
/// time, `tokens * 10^9`, is at most `elapsed_ns * refill_per_sec`. Unless
/// the count saturated, less than one token's worth is left over.
pub proof fn lemma_earned_tokens_paid_by_time(elapsed_ns: u64, refill_per_sec: u64)
    ensures
        spec_refill_tokens(elapsed_ns, refill_per_sec) as int * 1_000_000_000 <= elapsed_ns as int
            * refill_per_sec as int,
        (elapsed_ns as int * refill_per_sec as int) / 1_000_000_000 <= u64::MAX ==> elapsed_ns as int
            * refill_per_sec as int - spec_refill_tokens(elapsed_ns, refill_per_sec) as int
            * 1_000_000_000 < 1_000_000_000,
{
    let product = elapsed_ns as int * refill_per_sec as int;
    assert(0 <= elapsed_ns as int * refill_per_sec as int) by (nonlinear_arith)
        requires
            0 <= elapsed_ns,
            0 <= refill_per_sec,
    ;
    if elapsed_ns != 0 && refill_per_sec != 0 {
        let quotient = product / 1_000_000_000;
        lemma_fundamental_div_mod(product, 1_000_000_000);
        lemma_mod_pos_bound(product, 1_000_000_000);
        let add = spec_refill_tokens(elapsed_ns, refill_per_sec);
        assert(add <= quotient);
        lemma_mul_inequality(add as int, quotient, 1_000_000_000);
    } else {
        assert(product == 0) by (nonlinear_arith)
            requires
                elapsed_ns == 0 || refill_per_sec == 0,
                product == elapsed_ns as int * refill_per_sec as int,
        ;
    }
}

/// The time charged for `tokens` pays for them in full and overpays by less
/// than one nanosecond's worth: `tokens * 10^9 <= cost * rate <
/// tokens * 10^9 + rate`, unless the cost saturated.
pub proof fn lemma_cost_covers_tokens(tokens: u64, refill_per_sec: u64)
    requires
        refill_per_sec > 0,
        (tokens as int * 1_000_000_000 + refill_per_sec as int - 1) / refill_per_sec as int
            <= u64::MAX,
    ensures
        (spec_cost_of_tokens(tokens, refill_per_sec) as int) * (refill_per_sec as int) >= (
        tokens as int) * 1_000_000_000,
        (spec_cost_of_tokens(tokens, refill_per_sec) as int) * (refill_per_sec as int) < (
        tokens as int) * 1_000_000_000 + (refill_per_sec as int),
{
    let x = tokens as int * 1_000_000_000;
    let d = refill_per_sec as int;
    lemma_ceil_div(x, d);
    let c = spec_cost_of_tokens(tokens, refill_per_sec) as int;
    if tokens != 0 {
        assert(c == (x + d - 1) / d);
        assert(c * d < x + d);
    } else {
        assert(c == 0);
        assert(x == 0);
        assert(c * d == 0);
    }
}

/// The full cost of the tokens earned in `elapsed_ns` is never more than
/// `elapsed_ns`: charging it books only time that has passed.
pub proof fn lemma_charged_time_within_elapsed(elapsed_ns: u64, refill_per_sec: u64)
    ensures
        spec_cost_of_tokens(spec_refill_tokens(elapsed_ns, refill_per_sec), refill_per_sec)
            <= elapsed_ns,
        spec_refill_tokens(elapsed_ns, refill_per_sec) != 0 && refill_per_sec != 0 ==> (
        spec_refill_tokens(elapsed_ns, refill_per_sec) as int * 1_000_000_000 + refill_per_sec as int
            - 1) / (refill_per_sec as int) <= elapsed_ns,
{
    let add = spec_refill_tokens(elapsed_ns, refill_per_sec);
    if add != 0 && refill_per_sec != 0 {
        lemma_earned_tokens_paid_by_time(elapsed_ns, refill_per_sec);
        let x = add as int * 1_000_000_000;
        let d = refill_per_sec as int;
        lemma_ceil_div(x, d);
        let c = (x + d - 1) / d;
        assert(c <= elapsed_ns) by (nonlinear_arith)
            requires
                c * d < x + d,
                x <= elapsed_ns as int * d,
                d > 0,
        ;
    }
}

/// Converting between time and tokens with the floor rounding never gains:
/// the time that `tokens` take earns at most `tokens`, and the time that the
/// tokens earned in `elapsed_ns` take is at most `elapsed_ns`.
pub proof fn lemma_floor_round_trip(tokens: u64, elapsed_ns: u64, refill_per_sec: u64)
    ensures
        spec_refill_tokens(spec_elapsed_for_tokens(tokens, refill_per_sec), refill_per_sec)
            <= tokens,
        spec_elapsed_for_tokens(spec_refill_tokens(elapsed_ns, refill_per_sec), refill_per_sec)
            <= elapsed_ns,
{
    let r = refill_per_sec as int;
    if refill_per_sec != 0 && tokens != 0 {
        let x = tokens as int * 1_000_000_000;
        lemma_floor_div_times_le(x, r);
        let d = spec_elapsed_for_tokens(tokens, refill_per_sec) as int;
        assert(d <= x / r);
        lemma_mul_inequality(d, x / r, r);
        assert(0 <= d * r) by (nonlinear_arith)
            requires
                0 <= d,
                0 <= r,
        ;
        lemma_div_is_ordered(d * r, x, 1_000_000_000);
        lemma_div_by_multiple(tokens as int, 1_000_000_000);
    }
    let add = spec_refill_tokens(elapsed_ns, refill_per_sec);
    if refill_per_sec != 0 && add != 0 {
        lemma_earned_tokens_paid_by_time(elapsed_ns, refill_per_sec);
        let y = add as int * 1_000_000_000;
        lemma_div_is_ordered(y, elapsed_ns as int * r, r);
        lemma_div_by_multiple(elapsed_ns as int, r);
    }
}

/// A whole number of seconds earns exactly `refill_per_sec` tokens per
/// second (saturated at `u64::MAX`): waiting `secs` seconds at rate `r`
/// yields `secs * r` tokens.
pub proof fn lemma_whole_seconds_refill(secs: u64, refill_per_sec: u64)
    requires
        secs as int * 1_000_000_000 <= u64::MAX,
    ensures
        spec_refill_tokens((secs as int * 1_000_000_000) as u64, refill_per_sec)
            == saturate_u64(secs as int * refill_per_sec as int),
{
    let elapsed = secs as int * 1_000_000_000;
    if secs != 0 && refill_per_sec != 0 {
        assert((secs as int * 1_000_000_000) * refill_per_sec as int == (secs as int
            * refill_per_sec as int) * 1_000_000_000) by (nonlinear_arith);
        assert(0 <= secs as int * refill_per_sec as int) by (nonlinear_arith)
            requires
                0 <= secs,
                0 <= refill_per_sec,
        ;
        lemma_div_by_multiple(secs as int * refill_per_sec as int, 1_000_000_000);
    } else if secs == 0 {
        assert(secs as int * refill_per_sec as int == 0);
    } else {
        assert(secs as int * refill_per_sec as int == 0);
    }
}

} // verus!
