//! Saturating fixed-point arithmetic on `i64`.
//!
//! A value `x: i64` stands for the real number `x / SCALE`.  Every operation
//! truncates toward zero (the semantics of hardware division) and saturates
//! into the `i64` range; both effects are part of each operation's contract,
//! so callers reason about the exact value produced, never an approximation.

use vstd::prelude::*;

verus! {

/// Number of fixed-point units in `1.0`.
pub const SCALE: i64 = 1_000_000_000;

/// `SCALE` as a `u128`, for magnitude arithmetic.
pub const SCALE_U: u128 = 1_000_000_000;

/// `0.5` in fixed-point units.
pub const HALF_SCALE: i64 = 500_000_000;

/// `0.25` in fixed-point units.
pub const QUARTER_SCALE: i64 = 250_000_000;

/// Saturation of a mathematical integer into the `i64` range.
pub open spec fn fx_clip(x: int) -> int {
    if x > i64::MAX as int {
        i64::MAX as int
    } else if x < i64::MIN as int {
        i64::MIN as int
    } else {
        x
    }
}

/// Absolute value of a mathematical integer.
pub open spec fn iabs(x: int) -> int {
    if x < 0 {
        -x
    } else {
        x
    }
}

/// Division truncated toward zero, for a non-zero divisor.
pub open spec fn tdiv(n: int, d: int) -> int {
    if (n < 0) == (d < 0) {
        iabs(n) / iabs(d)
    } else {
        -(iabs(n) / iabs(d))
    }
}

/// Exact value of saturating fixed-point addition.
pub open spec fn fx_add_spec(a: int, b: int) -> int {
    fx_clip(a + b)
}

/// Exact value of saturating fixed-point subtraction.
pub open spec fn fx_sub_spec(a: int, b: int) -> int {
    fx_clip(a - b)
}

/// Exact value of saturating fixed-point multiplication.
pub open spec fn fx_mul_spec(a: int, b: int) -> int {
    fx_clip(tdiv(a * b, SCALE as int))
}

/// Exact value of multiplying a fixed-point number by a plain integer count.
pub open spec fn fx_muln_spec(a: int, n: int) -> int {
    fx_clip(a * n)
}

/// Exact value of saturating fixed-point division, for a non-zero divisor.
pub open spec fn fx_div_spec(a: int, b: int) -> int {
    fx_clip(tdiv(a * (SCALE as int), b))
}

/// Exact value of dividing a fixed-point number by a plain positive integer.
pub open spec fn fx_idiv_spec(a: int, n: int) -> int {
    fx_clip(tdiv(a, n))
}

/// Exact value of [`fx_div`] on every input, the zero-divisor guard
/// included.
pub open spec fn fx_div_total_spec(a: int, b: int) -> int {
    if b == 0 {
        0
    } else {
        fx_div_spec(a, b)
    }
}

/// Exact value of [`fx_sqrt`]: zero for non-positive arguments, else the
/// unique integer square root of `x * SCALE`, rounded down.
pub open spec fn fx_sqrt_spec(x: int) -> int {
    if x <= 0 {
        0
    } else {
        choose|r: int|
            r >= 0 && #[trigger] (r * r) <= x * (SCALE as int) && (r + 1) * (r + 1) > x * (
            SCALE as int)
    }
}

/// Two non-negative integers bracketing the same square are equal: the
/// rounded-down integer square root is unique.
pub proof fn lemma_isqrt_unique(n: int, a: int, b: int)
    by (nonlinear_arith)
    requires
        a >= 0,
        b >= 0,
        a * a <= n,
        (a + 1) * (a + 1) > n,
        b * b <= n,
        (b + 1) * (b + 1) > n,
    ensures
        a == b,
{
}

/// The larger of two fixed-point numbers.
pub open spec fn fx_max_spec(a: int, b: int) -> int {
    if a >= b {
        a
    } else {
        b
    }
}

/// `|a| * |b| == |a * b|`, and the sign of a product.
proof fn lemma_abs_mul(a: int, b: int, aa: int, bb: int)
    by (nonlinear_arith)
    requires
        aa == (if a < 0 { -a } else { a }),
        bb == (if b < 0 { -b } else { b }),
    ensures
        aa * bb == (if a * b < 0 { -(a * b) } else { a * b }),
        ((a < 0) == (b < 0)) ==> a * b >= 0,
        (a < 0 && b >= 0) ==> a * b <= 0,
        (a >= 0 && b < 0) ==> a * b <= 0,
{
}

/// Magnitude of an `i64` as a `u128`.
fn abs_mag(a: i64) -> (r: u128)
    ensures
        r as int == iabs(a as int),
{
    if a >= 0 {
        a as u128
    } else {
        (-(a as i128)) as u128
    }
}

/// Reattaches a sign to a magnitude and saturates into `i64`.
fn clamp_mag(neg: bool, mag: u128) -> (r: i64)
    ensures
        r as int == fx_clip(if neg { -(mag as int) } else { mag as int }),
{
    if neg {
        if mag >= 9_223_372_036_854_775_808u128 {
            i64::MIN
        } else {
            -(mag as i64)
        }
    } else {
        if mag > i64::MAX as u128 {
            i64::MAX
        } else {
            mag as i64
        }
    }
}

/// Saturating addition.
pub fn fx_add(a: i64, b: i64) -> (r: i64)
    ensures
        r as int == fx_add_spec(a as int, b as int),
{
    let s: i128 = a as i128 + b as i128;
    if s > i64::MAX as i128 {
        i64::MAX
    } else if s < i64::MIN as i128 {
        i64::MIN
    } else {
        s as i64
    }
}

/// Saturating subtraction.
pub fn fx_sub(a: i64, b: i64) -> (r: i64)
    ensures
        r as int == fx_sub_spec(a as int, b as int),
{
    let s: i128 = a as i128 - b as i128;
    if s > i64::MAX as i128 {
        i64::MAX
    } else if s < i64::MIN as i128 {
        i64::MIN
    } else {
        s as i64
    }
}

/// Saturating negation.
pub fn fx_neg(a: i64) -> (r: i64)
    ensures
        r as int == fx_clip(-(a as int)),
{
    if a == i64::MIN {
        i64::MAX
    } else {
        -a
    }
}

/// Saturating absolute value.
pub fn fx_abs(a: i64) -> (r: i64)
    ensures
        r as int == fx_clip(iabs(a as int)),
{
    if a == i64::MIN {
        i64::MAX
    } else if a < 0 {
        -a
    } else {
        a
    }
}

/// Maximum of two fixed-point numbers.
pub fn fx_max(a: i64, b: i64) -> (r: i64)
    ensures
        r as int == fx_max_spec(a as int, b as int),
{
    if a >= b {
        a
    } else {
        b
    }
}

/// Saturating fixed-point multiplication, truncated toward zero.
pub fn fx_mul(a: i64, b: i64) -> (r: i64)
    ensures
        r as int == fx_mul_spec(a as int, b as int),
{
    let neg = (a < 0) != (b < 0);
    let aa = abs_mag(a);
    let bb = abs_mag(b);
    proof {
        lemma_abs_mul(a as int, b as int, aa as int, bb as int);
        assert((aa as int) * (bb as int) < 0x1_0000_0000_0000_0000_0000_0000_0000_0000int)
            by (nonlinear_arith)
            requires
                aa as int <= 0x8000_0000_0000_0000int,
                bb as int <= 0x8000_0000_0000_0000int,
        ;
    }
    let prod = aa * bb;
    let mag = prod / SCALE_U;
    let r = clamp_mag(neg, mag);
    proof {
        let p = (a as int) * (b as int);
        assert(mag as int == iabs(p) / (SCALE as int));
        if p >= 0 {
            assert(tdiv(p, SCALE as int) == mag as int);
            if neg {
                assert(p == 0 && mag == 0);
            }
        } else {
            assert(neg);
            assert(tdiv(p, SCALE as int) == -(mag as int));
        }
    }
    r
}

/// Saturating multiplication of a fixed-point number by an integer count.
pub fn fx_muln(a: i64, n: i64) -> (r: i64)
    ensures
        r as int == fx_muln_spec(a as int, n as int),
{
    let neg = (a < 0) != (n < 0);
    let aa = abs_mag(a);
    let nn = abs_mag(n);
    proof {
        lemma_abs_mul(a as int, n as int, aa as int, nn as int);
        assert((aa as int) * (nn as int) < 0x1_0000_0000_0000_0000_0000_0000_0000_0000int)
            by (nonlinear_arith)
            requires
                aa as int <= 0x8000_0000_0000_0000int,
                nn as int <= 0x8000_0000_0000_0000int,
        ;
    }
    let prod = aa * nn;
    let r = clamp_mag(neg, prod);
    proof {
        let p = (a as int) * (n as int);
        if p >= 0 {
            if neg {
                assert(p == 0 && prod == 0);
            }
        } else {
            assert(neg);
        }
    }
    r
}

/// Saturating fixed-point division, truncated toward zero.  A zero divisor
/// yields zero; every caller either rules it out or documents that choice.
pub fn fx_div(a: i64, b: i64) -> (r: i64)
    ensures
        b != 0 ==> r as int == fx_div_spec(a as int, b as int),
        b == 0 ==> r == 0,
        r as int == fx_div_total_spec(a as int, b as int),
{
    if b == 0 {
        return 0;
    }
    let neg = (a < 0) != (b < 0);
    let aa = abs_mag(a);
    let bb = abs_mag(b);
    let prod = aa * SCALE_U;
    let mag = prod / bb;
    let r = clamp_mag(neg, mag);
    proof {
        lemma_abs_mul(a as int, SCALE as int, aa as int, SCALE as int);
        let p = (a as int) * (SCALE as int);
        assert(iabs(p) == (aa as int) * (SCALE as int));
        assert(mag as int == iabs(p) / iabs(b as int));
        if p >= 0 {
            assert(tdiv(p, b as int) == (if b < 0 { -(mag as int) } else { mag as int }));
            if a == 0 {
                assert(mag == 0);
            } else {
                assert(a > 0);
                assert(neg == (b < 0));
            }
        } else {
            assert(a < 0);
            assert(tdiv(p, b as int) == (if b < 0 { mag as int } else { -(mag as int) }));
            assert(neg == (b >= 0));
        }
    }
    r
}

/// Saturating division of a fixed-point number by a positive integer count.
pub fn fx_idiv(a: i64, n: i64) -> (r: i64)
    requires
        n > 0,
    ensures
        r as int == fx_idiv_spec(a as int, n as int),
{
    let neg = a < 0;
    let aa = abs_mag(a);
    let mag = aa / (n as u128);
    clamp_mag(neg, mag)
}

/// Fixed-point square root, rounded down: for positive `x` the result is the
/// exact integer square root of `x * SCALE`, so that squaring in real terms
/// undershoots `x` by less than one representable unit.
pub fn fx_sqrt(x: i64) -> (r: i64)
    ensures
        x <= 0 ==> r == 0,
        x > 0 ==> 0 <= r as int && (r as int) * (r as int) <= (x as int) * (SCALE as int)
            && ((r as int) + 1) * ((r as int) + 1) > (x as int) * (SCALE as int),
        r as int == fx_sqrt_spec(x as int),
{
    if x <= 0 {
        return 0;
    }
    let n: u128 = (x as u128) * SCALE_U;
    let mut lo: u128 = 0;
    let mut hi: u128 = 140_737_488_355_328;
    proof {
        assert(140_737_488_355_328int * 140_737_488_355_328int
            == 19_807_040_628_566_084_398_385_987_584int) by (nonlinear_arith);
        assert((hi as int) * (hi as int) > n as int);
    }
    while lo + 1 < hi
        invariant
            lo < hi,
            hi <= 140_737_488_355_328,
            (lo as int) * (lo as int) <= n as int,
            (hi as int) * (hi as int) > n as int,
            n as int == (x as int) * (SCALE as int),
        decreases hi - lo,
    {
        let mid = lo + (hi - lo) / 2;
        proof {
            assert((mid as int) * (mid as int) < 0x1_0000_0000_0000_0000_0000_0000_0000_0000int)
                by (nonlinear_arith)
                requires
                    mid as int <= 140_737_488_355_328int,
            ;
        }
        if mid * mid <= n {
            lo = mid;
        } else {
            hi = mid;
        }
    }
    proof {
        let xs = (x as int) * (SCALE as int);
        let w = lo as int;
        assert(w >= 0 && w * w <= xs && (w + 1) * (w + 1) > xs);
        let c = fx_sqrt_spec(x as int);
        assert(c >= 0 && c * c <= xs && (c + 1) * (c + 1) > xs);
        lemma_isqrt_unique(xs, w, c);
    }
    lo as i64
}

/// A product of non-negative factors, scaled down, stays non-negative; a
/// factor at most `SCALE` (one in real terms) cannot increase the other.
pub proof fn lemma_fx_mul_unit_bound(a: int, b: int)
    requires
        0 <= a <= i64::MAX as int,
        0 <= b <= SCALE as int,
    ensures
        0 <= fx_mul_spec(a, b) <= a,
{
    let p = a * b;
    assert(a * b >= 0 && a * b <= a * (SCALE as int)) by (nonlinear_arith)
        requires
            0 <= a,
            0 <= b <= SCALE as int,
    ;
    assert(tdiv(p, SCALE as int) == p / (SCALE as int));
    vstd::arithmetic::div_mod::lemma_div_is_ordered(p, a * (SCALE as int), SCALE as int);
    vstd::arithmetic::div_mod::lemma_div_multiples_vanish(a, SCALE as int);
    assert((SCALE as int) * a == a * (SCALE as int)) by (nonlinear_arith);
    vstd::arithmetic::div_mod::lemma_div_pos_is_pos(p, SCALE as int);
}

/// A zero factor gives a zero product.
pub proof fn lemma_fx_mul_zero(b: int)
    ensures
        fx_mul_spec(0, b) == 0,
        fx_mul_spec(b, 0) == 0,
{
    assert(0 * b == 0) by (nonlinear_arith);
    assert(b * 0 == 0) by (nonlinear_arith);
}

/// A zero numerator gives a zero quotient.
pub proof fn lemma_fx_idiv_zero(n: int)
    requires
        n != 0,
    ensures
        fx_idiv_spec(0, n) == 0,
{
}

/// A zero numerator gives a zero fixed-point quotient.
pub proof fn lemma_fx_div_zero_num(b: int)
    requires
        b != 0,
    ensures
        fx_div_spec(0, b) == 0,
{
}

/// The scaled product of two non-negative numbers is non-negative.
pub proof fn lemma_fx_mul_nonneg(a: int, b: int)
    requires
        0 <= a,
        0 <= b,
    ensures
        0 <= fx_mul_spec(a, b),
{
    let p = a * b;
    assert(a * b >= 0) by (nonlinear_arith)
        requires
            0 <= a,
            0 <= b,
    ;
    vstd::arithmetic::div_mod::lemma_div_pos_is_pos(p, SCALE as int);
}

} // verus!
