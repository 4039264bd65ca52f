//! Numeric helpers on fixed-point values.

use crate::exp::{exp_capped, exp_fixed, lemma_exp_fixed_monotone, CAP};
use vstd::prelude::*;

verus! {

/// The fixed-point representation of `1.0`: values count millionths.
pub const UNIT: i64 = 1_000_000;

/// One hundred, in fixed point: the upper end of the percentage range.
pub const HUNDRED: i64 = 100_000_000;

/// The value that `normalize` assigns to a non-negative `v`.
pub open spec fn normalized(v: int) -> int {
    if v <= UNIT {
        v
    } else if v <= HUNDRED {
        v / 100
    } else {
        UNIT as int
    }
}

/// The message of the error that `normalize` gives for a negative value.
pub open spec fn normalize_error() -> Seq<char> {
    "value must be between 0 and 1"@
}

/// Maps a non-negative value into `[0, 1]` by its magnitude: a value up to one
/// is kept, a value up to one hundred is read as a percentage, anything larger
/// becomes one. A negative value is rejected.
pub fn normalize(value: i64) -> (res: Result<i64, String>)
    ensures
        value >= 0 ==> res == Ok::<i64, String>(normalized(value as int) as i64),
        value >= 0 ==> 0 <= normalized(value as int) <= UNIT,
        value < 0 ==> res is Err && res->Err_0@ == normalize_error(),
{
    if value < 0 {
        Err(String::from_str("value must be between 0 and 1"))
    } else if value <= UNIT {
        Ok(value)
    } else if value <= HUNDRED {
        Ok(value / 100)
    } else {
        Ok(UNIT)
    }
}

/// Normalising twice gives what normalising once gives, and a value already in
/// `[0, 1]` is left as it is.
pub proof fn lemma_normalized_idempotent(v: int)
    requires
        v >= 0,
    ensures
        0 <= normalized(v) <= UNIT,
        normalized(normalized(v)) == normalized(v),
        v <= UNIT ==> normalized(v) == v,
{
}

/// The absolute value of `v`.
pub open spec fn magnitude(v: int) -> int {
    if v < 0 {
        -v
    } else {
        v
    }
}

/// The magnitude `m` with the sign of `v`.
pub open spec fn with_sign_of(v: int, m: int) -> int {
    if v < 0 {
        -m
    } else {
        m
    }
}

/// `x`, held to the range of `i64`.
pub open spec fn saturated(x: int) -> int {
    if x < i64::MIN {
        i64::MIN as int
    } else if x > i64::MAX {
        i64::MAX as int
    } else {
        x
    }
}

/// Computes the magnitude of `v`.
pub fn magnitude_of(v: i64) -> (m: u128)
    ensures
        m == magnitude(v as int),
{
    if v < 0 {
        (-(v as i128)) as u128
    } else {
        v as u128
    }
}

/// Gives the magnitude `m` the sign of `v` and holds the result to the range
/// of `i64`.
pub fn signed_like(v: i64, m: u128) -> (res: i64)
    ensures
        res == saturated(with_sign_of(v as int, m as int)),
{
    if v < 0 {
        if m >= 0x8000_0000_0000_0000 {
            i64::MIN
        } else {
            (-(m as i128)) as i64
        }
    } else {
        if m > 0x7fff_ffff_ffff_ffff {
            i64::MAX
        } else {
            m as i64
        }
    }
}

/// The exponent that `exp_decay` works with: the product of rate and factor,
/// as a non-negative fixed-point number truncated to millionths.
pub open spec fn decay_exponent(factor: int, k: int) -> int {
    magnitude(k * factor) / (UNIT as int)
}

/// The value `v * e^(-k * factor)` in fixed point. Where `k * factor` is not
/// negative, `v` is divided by the exponential, truncating toward zero. Where
/// it is negative, `v` is multiplied by it, and the result is held to the range
/// of `i64`.
pub open spec fn exp_decay_value(v: int, factor: int, k: int) -> int {
    let e = exp_fixed(decay_exponent(factor, k));
    if k * factor >= 0 {
        with_sign_of(v, magnitude(v) * UNIT / e)
    } else {
        saturated(with_sign_of(v, magnitude(v) * e / (UNIT as int)))
    }
}

/// Reduces `input_value` exponentially by `factor` at the rate `k`: the result
/// is `input_value * e^(-k * factor)`. With damage for `input_value` and armour
/// for `factor`, more armour lets less damage through.
pub fn exp_decay(input_value: i64, factor: i64, k: i64) -> (res: i64)
    ensures
        res == exp_decay_value(input_value as int, factor as int, k as int),
{
    assert(-0x4000_0000_0000_0000_0000_0000_0000_0000 <= k * factor
        <= 0x4000_0000_0000_0000_0000_0000_0000_0000) by (nonlinear_arith)
        requires
            -0x8000_0000_0000_0000 <= k <= 0x8000_0000_0000_0000,
            -0x8000_0000_0000_0000 <= factor <= 0x8000_0000_0000_0000,
    ;
    let product: i128 = (k as i128) * (factor as i128);
    let m: u128 = magnitude_of(input_value);
    let x: u128 = if product < 0 {
        ((-product) as u128) / 1_000_000
    } else {
        (product as u128) / 1_000_000
    };
    proof {
        lemma_exp_fixed_monotone(0, x as int);
    }
    let ghost e_spec = exp_fixed(x as int);
    if product >= 0 {
        match exp_capped(x, CAP) {
            None => {
                assert(m * UNIT / e_spec == 0) by (nonlinear_arith)
                    requires
                        0 <= m * UNIT < e_spec,
                ;
                0
            },
            Some(e) => {
                assert(m * 1_000_000 / (e as int) <= m) by (nonlinear_arith)
                    requires
                        0 <= m,
                        e >= 1_000_000,
                ;
                signed_like(input_value, m * 1_000_000 / e)
            },
        }
    } else if m == 0 {
        assert(0 * e_spec / (UNIT as int) == 0) by (nonlinear_arith);
        0
    } else {
        let wide: Option<u128> = match exp_capped(x, CAP) {
            None => {
                assert(m * e_spec / 1_000_000 >= 0x8000_0000_0000_0000) by (nonlinear_arith)
                    requires
                        m >= 1,
                        e_spec > 0x8000_0000_0000_0000 * 1_000_000,
                ;
                None
            },
            Some(e) => {
                let prod: Option<u128> = m.checked_mul(e);
                match prod {
                    None => {
                        assert(m * e / 1_000_000 >= 0x8000_0000_0000_0000) by (nonlinear_arith)
                            requires
                                m * e > 0xffff_ffff_ffff_ffff_ffff_ffff_ffff_ffff,
                        ;
                        None
                    },
                    Some(pr) => Some(pr / 1_000_000),
                }
            },
        };
        match wide {
            None => signed_like(input_value, 0x8000_0000_0000_0000),
            Some(q) => signed_like(input_value, q),
        }
    }
}

/// With a factor of zero nothing is taken away: `exp_decay(v, 0, k)` is `v`.
pub proof fn lemma_exp_decay_zero_factor(v: int, k: int)
    ensures
        exp_decay_value(v, 0, k) == v,
{
    reveal_with_fuel(crate::exp::series_term, 10);
    reveal_with_fuel(crate::exp::series_sum, 10);
    assert(exp_fixed(0) == UNIT);
    let m = magnitude(v);
    assert(m * UNIT / (UNIT as int) == m) by (nonlinear_arith)
        requires
            UNIT == 1_000_000,
    ;
}

/// A decay never adds: for a non-negative value and a non-negative product of
/// rate and factor, the result lies between zero and the value.
pub proof fn lemma_exp_decay_at_most(v: int, factor: int, k: int)
    requires
        v >= 0,
        k * factor >= 0,
    ensures
        0 <= exp_decay_value(v, factor, k) <= v,
{
    let x = decay_exponent(factor, k);
    lemma_exp_fixed_monotone(0, x);
    let e = exp_fixed(x);
    assert(0 <= v * UNIT / e <= v) by (nonlinear_arith)
        requires
            v >= 0,
            e >= UNIT,
            UNIT == 1_000_000,
    ;
}

/// At a positive rate the result never grows with the factor: a larger factor
/// gives a result that is at most as large.
pub proof fn lemma_exp_decay_monotone(v: int, f1: int, f2: int, k: int)
    requires
        0 <= v <= i64::MAX,
        k > 0,
        f1 <= f2,
    ensures
        exp_decay_value(v, f2, k) <= exp_decay_value(v, f1, k),
{
    let u = UNIT as int;
    assert(k * f1 <= k * f2) by (nonlinear_arith)
        requires
            k > 0,
            f1 <= f2,
    ;
    assert((k * f1 >= 0) == (f1 >= 0)) by (nonlinear_arith)
        requires
            k > 0,
    ;
    assert((k * f2 >= 0) == (f2 >= 0)) by (nonlinear_arith)
        requires
            k > 0,
    ;
    let x1 = decay_exponent(f1, k);
    let x2 = decay_exponent(f2, k);
    lemma_exp_fixed_monotone(0, x1);
    lemma_exp_fixed_monotone(0, x2);
    let e1 = exp_fixed(x1);
    let e2 = exp_fixed(x2);
    if f1 >= 0 {
        assert(x1 <= x2) by (nonlinear_arith)
            requires
                x1 == (k * f1) / u,
                x2 == (k * f2) / u,
                0 <= k * f1 <= k * f2,
                u > 0,
        ;
        lemma_exp_fixed_monotone(x1, x2);
        assert(v * u / e2 <= v * u / e1) by (nonlinear_arith)
            requires
                v >= 0,
                u > 0,
                0 < e1 <= e2,
        ;
    } else if f2 >= 0 {
        assert(v * u / e2 <= v) by (nonlinear_arith)
            requires
                v >= 0,
                u > 0,
                e2 >= u,
        ;
        assert(v * e1 / u >= v) by (nonlinear_arith)
            requires
                v >= 0,
                u > 0,
                e1 >= u,
        ;
    } else {
        assert(x2 <= x1) by (nonlinear_arith)
            requires
                x1 == (-(k * f1)) / u,
                x2 == (-(k * f2)) / u,
                k * f1 <= k * f2 < 0,
                u > 0,
        ;
        lemma_exp_fixed_monotone(x2, x1);
        assert(v * e2 / u <= v * e1 / u) by (nonlinear_arith)
            requires
                v >= 0,
                u > 0,
                0 < e2 <= e1,
        ;
    }
}

/// The number of decimal places that a fixed-point value holds.
pub const DECIMALS: u32 = 6;

/// Ten to the power of `n`.
pub open spec fn pow10(n: nat) -> int
    decreases n,
{
    if n == 0 {
        1
    } else {
        10 * pow10((n - 1) as nat)
    }
}

/// The distance between two neighbouring values with `frac_len` decimal places,
/// in millionths. It is one where `frac_len` is the full precision or more.
pub open spec fn rounding_step(frac_len: nat) -> int {
    if frac_len >= DECIMALS {
        1
    } else {
        pow10((DECIMALS - frac_len) as nat)
    }
}

/// The multiple of `step` nearest to the magnitude `m`; of two equally near,
/// the larger.
pub open spec fn nearest_multiple(m: int, step: int) -> int {
    (m + step / 2) / step * step
}

/// `x` rounded to `frac_len` decimal places, before it is held to the range of
/// `i64`: the nearest value with that many places, and of two equally near the
/// one farther from zero.
pub open spec fn rounded_exact(x: int, frac_len: nat) -> int {
    with_sign_of(x, nearest_multiple(magnitude(x), rounding_step(frac_len)))
}

/// The value that `round` gives.
pub open spec fn rounded(x: int, frac_len: nat) -> int {
    saturated(rounded_exact(x, frac_len))
}

/// The step is a power of ten between one and `UNIT`.
pub proof fn lemma_rounding_step_bounds(frac_len: nat)
    ensures
        1 <= rounding_step(frac_len) <= UNIT,
        frac_len == 0 ==> rounding_step(frac_len) == UNIT,
{
    reveal_with_fuel(pow10, 7);
}

/// Rounds `f_num` to `frac_len` decimal places, halves away from zero. A result
/// beyond the range of `i64` becomes the nearest end of that range.
pub fn round(f_num: i64, frac_len: u32) -> (res: i64)
    ensures
        res == rounded(f_num as int, frac_len as nat),
{
    let mut step: u128 = 1;
    let mut i: u32 = if frac_len >= 6 {
        6
    } else {
        frac_len
    };
    proof {
        reveal_with_fuel(pow10, 7);
    }
    let ghost start: u32 = i;
    while i < 6
        invariant
            start <= i <= 6,
            step == pow10((i - start) as nat),
            1 <= step <= 1_000_000,
        decreases 6 - i,
    {
        i = i + 1;
        step = step * 10;
        proof {
            lemma_pow10_monotone((i - start) as nat, 6);
            reveal_with_fuel(pow10, 7);
        }
    }
    let m: u128 = magnitude_of(f_num);
    let count: u128 = (m + step / 2) / step;
    assert(count * step <= m + step / 2) by (nonlinear_arith)
        requires
            count == (m + step / 2) / (step as int),
            step > 0,
    ;
    signed_like(f_num, count * step)
}

/// Powers of ten grow with the exponent.
pub proof fn lemma_pow10_monotone(a: nat, b: nat)
    requires
        a <= b,
    ensures
        1 <= pow10(a) <= pow10(b),
    decreases b,
{
    if b > 0 {
        if a == b {
            lemma_pow10_monotone((a - 1) as nat, (b - 1) as nat);
        } else {
            lemma_pow10_monotone(a, (b - 1) as nat);
        }
    }
}

/// The nearest multiple is a multiple of the step, and no farther from the
/// magnitude than half a step.
pub proof fn lemma_nearest_multiple(m: int, step: int)
    requires
        m >= 0,
        step >= 1,
    ensures
        nearest_multiple(m, step) >= 0,
        nearest_multiple(m, step) % step == 0,
        2 * (nearest_multiple(m, step) - m) <= step,
        2 * (m - nearest_multiple(m, step)) <= step,
{
    let a = m + step / 2;
    let q = a / step;
    vstd::arithmetic::div_mod::lemma_fundamental_div_mod(a, step);
    vstd::arithmetic::div_mod::lemma_mod_bound(a, step);
    vstd::arithmetic::div_mod::lemma_mod_multiples_basic(q, step);
    assert(q >= 0) by (nonlinear_arith)
        requires
            q == a / step,
            a >= 0,
            step >= 1,
    ;
    assert(q * step >= 0) by (nonlinear_arith)
        requires
            q >= 0,
            step >= 1,
    ;
}

/// A multiple of the step is its own nearest multiple.
pub proof fn lemma_nearest_multiple_fixed(q: int, step: int)
    requires
        q >= 0,
        step >= 1,
    ensures
        nearest_multiple(q * step, step) == q * step,
{
    let h = step / 2;
    assert((q * step + h) / step == q) by (nonlinear_arith)
        requires
            0 <= h < step,
            q >= 0,
    ;
}

/// The nearest multiple grows with the magnitude.
pub proof fn lemma_nearest_multiple_monotone(m1: int, m2: int, step: int)
    requires
        0 <= m1 <= m2,
        step >= 1,
    ensures
        nearest_multiple(m1, step) <= nearest_multiple(m2, step),
{
    let h = step / 2;
    assert((m1 + h) / step * step <= (m2 + h) / step * step) by (nonlinear_arith)
        requires
            0 <= m1 <= m2,
            h >= 0,
            step >= 1,
    ;
}

/// Before saturation, a rounded value has the asked number of decimal places
/// and differs from the value by half a step at most. With no decimal places
/// the step is one: the result is the nearest whole number.
pub proof fn lemma_round_nearest(x: int, frac_len: nat)
    ensures
        rounded_exact(x, frac_len) % rounding_step(frac_len) == 0,
        2 * magnitude(rounded_exact(x, frac_len) - x) <= rounding_step(frac_len),
        rounding_step(0) == UNIT,
{
    let step = rounding_step(frac_len);
    lemma_rounding_step_bounds(frac_len);
    lemma_rounding_step_bounds(0);
    let m = magnitude(x);
    lemma_nearest_multiple(m, step);
    if x < 0 {
        let q = (m + step / 2) / step;
        vstd::arithmetic::div_mod::lemma_mod_multiples_basic(-q, step);
        assert((-q) * step == -(q * step)) by (nonlinear_arith);
    }
}

/// Rounding a rounded value changes nothing.
pub proof fn lemma_round_idempotent(x: int, frac_len: nat)
    requires
        i64::MIN <= x <= i64::MAX,
    ensures
        rounded(rounded(x, frac_len), frac_len) == rounded(x, frac_len),
{
    let step = rounding_step(frac_len);
    lemma_rounding_step_bounds(frac_len);
    let m = magnitude(x);
    let q = (m + step / 2) / step;
    let r = nearest_multiple(m, step);
    lemma_nearest_multiple(m, step);
    assert(q >= 0) by (nonlinear_arith)
        requires
            q == (m + step / 2) / step,
            m >= 0,
            step >= 1,
    ;
    lemma_nearest_multiple_fixed(q, step);
    if x >= 0 {
        if r > i64::MAX {
            lemma_nearest_multiple_monotone(m, i64::MAX as int, step);
        }
    } else {
        if r > -(i64::MIN as int) {
            lemma_nearest_multiple_monotone(m, -(i64::MIN as int), step);
        } else if r == 0 {
            lemma_nearest_multiple_fixed(0, step);
        }
    }
}

} // verus!
