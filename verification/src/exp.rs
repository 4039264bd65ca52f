//! The exponential function in fixed point, on integers alone.
//!
//! `e^x` for `x >= 0` is the power of `e` at the whole part of `x` times the
//! exponential series at its fractional part. Every step is a multiplication
//! followed by a truncating division, so the result is never above the true
//! value by more than the rounding of `EULER`, and grows with `x`.

use crate::math::UNIT;
use vstd::prelude::*;

verus! {

/// Euler's number in fixed point, rounded up to the next millionth.
pub const EULER: i64 = 2_718_282;

/// The number of terms after the first that the exponential series is summed
/// to. For an argument below one, every later term is below one millionth.
pub const SERIES_TERMS: u32 = 9;

/// The `i`-th term of the exponential series at the fraction `y` (below one),
/// each term got from the one before it by a truncating division.
pub open spec fn series_term(y: int, i: nat) -> int
    decreases i,
{
    if i == 0 {
        UNIT as int
    } else {
        series_term(y, (i - 1) as nat) * y / (i * UNIT)
    }
}

/// The sum of the terms `0..=n` of the exponential series at the fraction `y`.
pub open spec fn series_sum(y: int, n: nat) -> int
    decreases n,
{
    if n == 0 {
        series_term(y, 0)
    } else {
        series_sum(y, (n - 1) as nat) + series_term(y, n)
    }
}

/// `e` to the power of a whole number `n`, in fixed point: `n` multiplications
/// by `EULER`, each followed by a truncating division.
pub open spec fn exp_whole(n: nat) -> int
    decreases n,
{
    if n == 0 {
        UNIT as int
    } else {
        exp_whole((n - 1) as nat) * EULER / (UNIT as int)
    }
}

/// `e` to the power of `x`, for a fixed-point `x >= 0`, in fixed point: the
/// power of the whole part times the series at the fractional part.
pub open spec fn exp_fixed(x: int) -> int {
    exp_whole((x / (UNIT as int)) as nat) * series_sum(x % (UNIT as int), SERIES_TERMS as nat) / (
    UNIT as int)
}

/// For a fraction `y`, every term of the series lies between zero and one.
pub proof fn lemma_series_term_bounds(y: int, i: nat)
    requires
        0 <= y < UNIT,
    ensures
        0 <= series_term(y, i) <= UNIT,
    decreases i,
{
    if i > 0 {
        lemma_series_term_bounds(y, (i - 1) as nat);
        let t = series_term(y, (i - 1) as nat);
        let d = i * UNIT;
        assert(0 <= t * y / d <= t) by (nonlinear_arith)
            requires
                0 <= t,
                0 <= y < UNIT,
                d >= UNIT,
                UNIT == 1_000_000,
        ;
    }
}

/// Each term of the series grows with the fraction.
pub proof fn lemma_series_term_monotone(y1: int, y2: int, i: nat)
    requires
        0 <= y1 <= y2 < UNIT,
    ensures
        series_term(y1, i) <= series_term(y2, i),
    decreases i,
{
    if i > 0 {
        lemma_series_term_monotone(y1, y2, (i - 1) as nat);
        lemma_series_term_bounds(y1, (i - 1) as nat);
        let t1 = series_term(y1, (i - 1) as nat);
        let t2 = series_term(y2, (i - 1) as nat);
        let d = i * UNIT;
        assert(t1 * y1 / d <= t2 * y2 / d) by (nonlinear_arith)
            requires
                0 <= t1 <= t2,
                0 <= y1 <= y2,
                d > 0,
        ;
    }
}

/// The sum of the series is at least one, at most one per term, and grows with
/// the fraction.
pub proof fn lemma_series_sum_bounds(y: int, n: nat)
    requires
        0 <= y < UNIT,
    ensures
        UNIT <= series_sum(y, n) <= (n + 1) * UNIT,
    decreases n,
{
    if n > 0 {
        lemma_series_sum_bounds(y, (n - 1) as nat);
        lemma_series_term_bounds(y, n);
    }
}

/// The sum of the series grows with the fraction.
pub proof fn lemma_series_sum_monotone(y1: int, y2: int, n: nat)
    requires
        0 <= y1 <= y2 < UNIT,
    ensures
        series_sum(y1, n) <= series_sum(y2, n),
    decreases n,
{
    lemma_series_term_monotone(y1, y2, n);
    if n > 0 {
        lemma_series_sum_monotone(y1, y2, (n - 1) as nat);
    }
}

/// The series at any fraction stays below `EULER`: a step inside one whole
/// part never overtakes the step to the next whole part.
pub proof fn lemma_series_sum_below_euler(y: int)
    requires
        0 <= y < UNIT,
    ensures
        series_sum(y, SERIES_TERMS as nat) <= EULER,
{
    let top = UNIT - 1;
    lemma_series_sum_monotone(y, top, SERIES_TERMS as nat);
    reveal_with_fuel(series_term, 10);
    reveal_with_fuel(series_sum, 10);
    assert(series_term(top, 1) == 999_999);
    assert(series_term(top, 2) == 499_999);
    assert(series_term(top, 3) == 166_666);
    assert(series_term(top, 4) == 41_666);
    assert(series_term(top, 5) == 8_333);
    assert(series_term(top, 6) == 1_388);
    assert(series_term(top, 7) == 198);
    assert(series_term(top, 8) == 24);
    assert(series_term(top, 9) == 2);
}

/// A whole power of `e` is at least one and grows with the exponent.
pub proof fn lemma_exp_whole_monotone(n1: nat, n2: nat)
    requires
        n1 <= n2,
    ensures
        UNIT <= exp_whole(n1) <= exp_whole(n2),
    decreases n2,
{
    if n2 == 0 {
    } else if n1 == n2 {
        lemma_exp_whole_monotone(0, (n2 - 1) as nat);
        lemma_exp_whole_step(n2);
    } else {
        lemma_exp_whole_monotone(n1, (n2 - 1) as nat);
        lemma_exp_whole_step(n2);
    }
}

/// One more multiplication by `e` at least doubles a whole power.
pub proof fn lemma_exp_whole_step(n: nat)
    requires
        n > 0,
        exp_whole((n - 1) as nat) >= UNIT,
    ensures
        exp_whole(n) >= 2 * exp_whole((n - 1) as nat),
        exp_whole(n) <= 3 * exp_whole((n - 1) as nat),
{
    let p = exp_whole((n - 1) as nat);
    assert(2 * p <= p * 2_718_282 / 1_000_000 <= 3 * p) by (nonlinear_arith)
        requires
            p >= 1_000_000,
    ;
}

/// `e^x` in fixed point is at least one and grows with `x`.
pub proof fn lemma_exp_fixed_monotone(x1: int, x2: int)
    requires
        0 <= x1 <= x2,
    ensures
        UNIT <= exp_fixed(x1) <= exp_fixed(x2),
{
    let u = UNIT as int;
    let n1 = (x1 / u) as nat;
    let n2 = (x2 / u) as nat;
    let y1 = x1 % u;
    let y2 = x2 % u;
    let s1 = series_sum(y1, SERIES_TERMS as nat);
    let s2 = series_sum(y2, SERIES_TERMS as nat);
    let w1 = exp_whole(n1);
    let w2 = exp_whole(n2);
    assert(x1 / u <= x2 / u) by (nonlinear_arith)
        requires
            0 <= x1 <= x2,
            u > 0,
    ;
    lemma_series_sum_bounds(y1, SERIES_TERMS as nat);
    lemma_series_sum_bounds(y2, SERIES_TERMS as nat);
    lemma_exp_whole_monotone(n1, n2);
    assert(w1 * s1 / u >= u) by (nonlinear_arith)
        requires
            w1 >= u,
            s1 >= u,
            u > 0,
    ;
    if n1 == n2 {
        lemma_series_sum_monotone(y1, y2, SERIES_TERMS as nat);
        assert(w1 * s1 / u <= w2 * s2 / u) by (nonlinear_arith)
            requires
                0 <= w1 == w2,
                0 <= s1 <= s2,
                u > 0,
        ;
    } else {
        lemma_series_sum_below_euler(y1);
        lemma_exp_whole_monotone(n1, (n1 + 1) as nat);
        lemma_exp_whole_monotone((n1 + 1) as nat, n2);
        let e = EULER as int;
        assert(w1 * s1 / u <= w1 * e / u) by (nonlinear_arith)
            requires
                0 <= w1,
                0 <= s1 <= e,
                u > 0,
        ;
        assert(w2 <= w2 * s2 / u) by (nonlinear_arith)
            requires
                0 <= w2,
                s2 >= u,
                u > 0,
        ;
    }
}

/// The largest bound that `exp_capped` accepts: `2^63` in fixed point, which no
/// `i64` magnitude times `UNIT` exceeds.
pub const CAP: u128 = 9_223_372_036_854_775_808_000_000;

/// Sums the exponential series at a fraction.
pub fn exp_series(y: u64) -> (sum: u64)
    requires
        y < UNIT,
    ensures
        sum == series_sum(y as int, SERIES_TERMS as nat),
        UNIT <= sum <= EULER,
{
    let mut term: u64 = 1_000_000;
    let mut sum: u64 = 1_000_000;
    let mut i: u64 = 0;
    while i < 9
        invariant
            i <= 9,
            y < UNIT,
            term == series_term(y as int, i as nat),
            sum == series_sum(y as int, i as nat),
        decreases 9 - i,
    {
        i = i + 1;
        proof {
            lemma_series_term_bounds(y as int, (i - 1) as nat);
            lemma_series_term_bounds(y as int, i as nat);
            lemma_series_sum_bounds(y as int, (i - 1) as nat);
            lemma_series_sum_bounds(y as int, i as nat);
            assert(term * y <= 1_000_000 * 1_000_000) by (nonlinear_arith)
                requires
                    term <= 1_000_000,
                    y <= 1_000_000,
            ;
        }
        term = term * y / (i * 1_000_000);
        sum = sum + term;
    }
    proof {
        lemma_series_sum_bounds(y as int, 9);
        lemma_series_sum_below_euler(y as int);
    }
    sum
}

/// Raises `e` to a whole power, giving up as soon as the power exceeds `cap`.
pub fn exp_whole_capped(n: u128, cap: u128) -> (res: Option<u128>)
    requires
        cap <= CAP,
    ensures
        res matches Some(p) ==> p == exp_whole(n as nat) && UNIT <= p <= cap,
        res is None ==> exp_whole(n as nat) > cap,
{
    let mut p: u128 = 1_000_000;
    let mut i: u128 = 0;
    if p > cap {
        proof {
            lemma_exp_whole_monotone(0, n as nat);
        }
        return None;
    }
    while i < n
        invariant
            i <= n,
            cap <= CAP,
            p == exp_whole(i as nat),
            UNIT <= p <= cap,
        decreases n - i,
    {
        i = i + 1;
        proof {
            lemma_exp_whole_step(i as nat);
        }
        p = p * 2_718_282 / 1_000_000;
        if p > cap {
            proof {
                lemma_exp_whole_monotone(i as nat, n as nat);
            }
            return None;
        }
    }
    Some(p)
}

/// Computes `e^x` for a fixed-point `x`, giving up where the result is known to
/// exceed `cap`.
pub fn exp_capped(x: u128, cap: u128) -> (res: Option<u128>)
    requires
        cap <= CAP,
    ensures
        res matches Some(e) ==> e == exp_fixed(x as int) && UNIT <= e <= 3 * cap,
        res is None ==> exp_fixed(x as int) > cap,
{
    let whole: u128 = x / 1_000_000;
    let fraction: u64 = (x % 1_000_000) as u64;
    let s: u64 = exp_series(fraction);
    proof {
        lemma_exp_fixed_monotone(0, x as int);
    }
    match exp_whole_capped(whole, cap) {
        Some(p) => {
            assert(p * s / 1_000_000 <= 3 * p && p * s <= 3_000_000 * p) by (nonlinear_arith)
                requires
                    0 <= p,
                    0 <= s <= 2_718_282,
            ;
            Some(p * (s as u128) / 1_000_000)
        },
        None => {
            proof {
                let p = exp_whole(whole as nat);
                assert(p * s / 1_000_000 >= p) by (nonlinear_arith)
                    requires
                        0 <= p,
                        s >= 1_000_000,
                ;
            }
            None
        },
    }
}

} // verus!
