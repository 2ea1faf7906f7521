//! Elementary functions on fixed-point numbers: natural logarithm, negative
//! exponential, and the standard normal cumulative distribution.
//!
//! These are truncated-series approximations.  Exact values cannot be stated
//! for transcendental functions, so each contract pins down the algebraic
//! facts callers rely on: ranges that hold for every input, and the exact
//! result at the distinguished points (`ln 1 == 0`, `exp 0 == 1`) that the
//! degenerate-input paths of the pricers depend on.

use vstd::prelude::*;
use crate::fixed::{
    fx_add, fx_div, fx_idiv, fx_mul, fx_muln, fx_sub, fx_abs,
    fx_add_spec, fx_clip, fx_div_total_spec, fx_idiv_spec, fx_mul_spec, fx_muln_spec,
    fx_sub_spec, iabs,
    lemma_fx_mul_nonneg, lemma_fx_mul_unit_bound,
    lemma_fx_mul_zero, lemma_fx_idiv_zero, lemma_fx_div_zero_num,
    SCALE, HALF_SCALE,
};

verus! {

/// `ln 2` in fixed-point units.
pub const LN2_FX: i64 = 693_147_181;

/// `1 / sqrt(2 * pi)` in fixed-point units.
pub const INV_SQRT_2PI: i64 = 398_942_280;

/// Halve the mantissa until it drops below two, counting doublings.
pub open spec fn ln_reduce_down(mm: int, k: int) -> (int, int)
    decreases 128 - k,
{
    if mm >= 2_000_000_000 && k < 128 {
        ln_reduce_down(mm / 2, k + 1)
    } else {
        (mm, k)
    }
}

/// Double the mantissa until it reaches one, counting halvings.
pub open spec fn ln_reduce_up(mm: int, k: int) -> (int, int)
    decreases k + 128,
{
    if mm < 1_000_000_000 && k > -128 {
        ln_reduce_up(2 * mm, k - 1)
    } else {
        (mm, k)
    }
}

/// The truncated odd power series of `atanh`, accumulated over the odd
/// exponents from `j` through 25.
pub open spec fn atanh_series(z2: int, acc: int, sum: int, j: int) -> int
    decreases 27 - j,
{
    if j > 25 {
        sum
    } else {
        let a2 = fx_mul_spec(acc, z2);
        atanh_series(z2, a2, fx_add_spec(sum, fx_idiv_spec(a2, j)), j + 2)
    }
}

/// Exact value of [`ln_fx`]: normalise to `m * 2^k`, evaluate the `atanh`
/// series at `(m - 1) / (m + 1)`, and recombine with `k * ln 2`.
pub open spec fn ln_spec(x: int) -> int {
    let r1 = ln_reduce_down(x, 0);
    let r2 = ln_reduce_up(r1.0, r1.1);
    let z = fx_div_total_spec(fx_sub_spec(r2.0, SCALE as int), fx_add_spec(r2.0, SCALE as int));
    let sum = atanh_series(fx_mul_spec(z, z), z, z, 3);
    fx_add_spec(fx_muln_spec(LN2_FX as int, r2.1), fx_muln_spec(sum, 2))
}

/// Natural logarithm of a positive fixed-point number.
///
/// The argument is normalised to `m * 2^k` with `m` near one, and
/// `ln m == 2 * atanh((m - 1) / (m + 1))` is evaluated as a truncated odd
/// power series; the result is `2 * atanh(...) + k * ln 2`, exactly the
/// value of [`ln_spec`].
pub fn ln_fx(x: i64) -> (r: i64)
    requires
        x > 0,
    ensures
        r as int == ln_spec(x as int),
        x == SCALE ==> r == 0,
{
    let mut mm: u128 = x as u128;
    let mut k: i64 = 0;
    while mm >= 2_000_000_000 && k < 128
        invariant
            1 <= mm <= 0x7fff_ffff_ffff_ffff,
            0 <= k <= 128,
            x == SCALE ==> (mm == SCALE as u128 && k == 0),
            ln_reduce_down(mm as int, k as int) == ln_reduce_down(x as int, 0),
        decreases 128 - k,
    {
        mm = mm / 2;
        k = k + 1;
    }
    proof {
        assert(ln_reduce_down(mm as int, k as int) == (mm as int, k as int));
    }
    while mm < 1_000_000_000 && k > -128
        invariant
            1 <= mm <= 0x7fff_ffff_ffff_ffff,
            -128 <= k <= 128,
            x == SCALE ==> (mm == SCALE as u128 && k == 0),
            ln_reduce_up(mm as int, k as int) == ln_reduce_up(
                ln_reduce_down(x as int, 0).0,
                ln_reduce_down(x as int, 0).1,
            ),
        decreases k + 128,
    {
        mm = mm * 2;
        k = k - 1;
    }
    proof {
        assert(ln_reduce_up(mm as int, k as int) == (mm as int, k as int));
    }
    let m_fx: i64 = mm as i64;
    let num = fx_sub(m_fx, SCALE);
    let den = fx_add(m_fx, SCALE);
    proof {
        lemma_fx_div_zero_num(den as int);
    }
    let z = fx_div(num, den);
    proof {
        lemma_fx_mul_zero(z as int);
    }
    let z2 = fx_mul(z, z);
    let mut acc: i64 = z;
    let mut sum: i64 = z;
    let mut j: i64 = 3;
    while j <= 25
        invariant
            3 <= j <= 27,
            x == SCALE ==> (z == 0 && acc == 0 && sum == 0),
            atanh_series(z2 as int, acc as int, sum as int, j as int) == atanh_series(
                z2 as int,
                z as int,
                z as int,
                3,
            ),
        decreases 27 - j,
    {
        proof {
            lemma_fx_mul_zero(z2 as int);
            lemma_fx_idiv_zero(j as int);
        }
        acc = fx_mul(acc, z2);
        sum = fx_add(sum, fx_idiv(acc, j));
        j = j + 2;
    }
    fx_add(fx_muln(LN2_FX, k), fx_muln(sum, 2))
}

/// The truncated Taylor series of `exp(-y)` in Horner form, built from the
/// innermost factor outward: the value of the accumulator once the factors
/// with divisors above `j` have been applied.
pub open spec fn exp_horner(y: int, j: int) -> int
    decreases 12 - j,
{
    if j >= 12 {
        SCALE as int
    } else {
        fx_sub_spec(SCALE as int, fx_idiv_spec(fx_mul_spec(y, exp_horner(y, j + 1)), j + 1))
    }
}

/// A value clamped into `[0, SCALE]`.
pub open spec fn clamp_unit(v: int) -> int {
    if v < 0 {
        0
    } else if v > SCALE as int {
        SCALE as int
    } else {
        v
    }
}

/// Exact value of [`exp_taylor_neg`]: the Horner evaluation, clamped.
pub open spec fn exp_taylor_spec(y: int) -> int {
    clamp_unit(exp_horner(y, 0))
}

/// `exp(-y)` for `y` between zero and one half, by a truncated Taylor series
/// in Horner form, clamped into `[0, SCALE]`.
fn exp_taylor_neg(y: i64) -> (r: i64)
    requires
        y >= 0,
    ensures
        0 <= r <= SCALE,
        y == 0 ==> r == SCALE,
        r as int == exp_taylor_spec(y as int),
{
    let mut acc: i64 = SCALE;
    let mut j: i64 = 12;
    while j >= 1
        invariant
            0 <= j <= 12,
            y == 0 ==> acc == SCALE,
            acc as int == exp_horner(y as int, j as int),
        decreases j,
    {
        proof {
            lemma_fx_mul_zero(acc as int);
            lemma_fx_idiv_zero(j as int);
        }
        acc = fx_sub(SCALE, fx_idiv(fx_mul(y, acc), j));
        j = j - 1;
    }
    if acc < 0 {
        0
    } else if acc > SCALE {
        SCALE
    } else {
        acc
    }
}

/// Arguments at or beyond this magnitude have `exp(-u)` below one
/// representable unit: the result is exactly zero there.
pub const EXP_NEG_FLOOR: i64 = 46_000_000_000;

/// Halve the argument until it is at most one half, counting halvings.
pub open spec fn exp_reduce(y: int, k: int) -> (int, int)
    decreases 64 - k,
{
    if y > HALF_SCALE as int && k < 64 {
        exp_reduce(fx_idiv_spec(y, 2), k + 1)
    } else {
        (y, k)
    }
}

/// Square a value `n` times.
pub open spec fn square_up(r: int, n: int) -> int
    decreases n,
{
    if n <= 0 {
        r
    } else {
        square_up(fx_mul_spec(r, r), n - 1)
    }
}

/// Exact value of [`exp_neg`]: zero beyond the floor, else the Taylor
/// evaluation of the halved argument squared back up.
pub open spec fn exp_neg_spec(u: int) -> int {
    if u >= EXP_NEG_FLOOR as int {
        0
    } else {
        let rd = exp_reduce(u, 0);
        square_up(exp_taylor_spec(rd.0), rd.1)
    }
}

/// `exp(-u)` for non-negative `u`: the argument is halved until it is at
/// most one half, the Taylor series is evaluated there, and the result is
/// squared back up, exactly the value of [`exp_neg_spec`].  The result
/// always lies in `[0, SCALE]`; arguments beyond `EXP_NEG_FLOOR` give
/// exactly zero.
pub fn exp_neg(u: i64) -> (r: i64)
    requires
        u >= 0,
    ensures
        0 <= r <= SCALE,
        u == 0 ==> r == SCALE,
        u >= EXP_NEG_FLOOR ==> r == 0,
        r as int == exp_neg_spec(u as int),
{
    if u >= EXP_NEG_FLOOR {
        return 0;
    }
    let mut y: i64 = u;
    let mut k: i64 = 0;
    while y > HALF_SCALE && k < 64
        invariant
            y >= 0,
            0 <= k <= 64,
            u == 0 ==> (y == 0 && k == 0),
            exp_reduce(y as int, k as int) == exp_reduce(u as int, 0),
        decreases 64 - k,
    {
        proof {
            lemma_fx_idiv_zero(2);
        }
        y = fx_idiv(y, 2);
        k = k + 1;
    }
    proof {
        assert(exp_reduce(y as int, k as int) == (y as int, k as int));
    }
    let t = exp_taylor_neg(y);
    let mut r: i64 = t;
    let mut i: i64 = 0;
    while i < k
        invariant
            0 <= i <= k <= 64,
            0 <= r <= SCALE,
            u == 0 ==> r == SCALE,
            square_up(r as int, (k - i) as int) == square_up(t as int, k as int),
        decreases k - i,
    {
        proof {
            lemma_fx_mul_unit_bound(r as int, r as int);
            assert(fx_mul_spec(SCALE as int, SCALE as int) == SCALE as int);
        }
        r = fx_mul(r, r);
        i = i + 1;
    }
    r
}

/// Exact value of [`norm_cdf`]: the Zelen–Severo evaluation on the
/// magnitude of `x`, clamped into `[1/2, 1]`, reflected for negative `x`.
pub open spec fn norm_cdf_spec(x: int) -> int {
    let ax = fx_clip(iabs(x));
    let t = fx_div_total_spec(
        SCALE as int,
        fx_add_spec(SCALE as int, fx_mul_spec(231_641_900, ax)),
    );
    let p = fx_mul_spec(
        t,
        fx_add_spec(
            319_381_530,
            fx_mul_spec(
                t,
                fx_add_spec(
                    -356_563_782,
                    fx_mul_spec(
                        t,
                        fx_add_spec(
                            1_781_477_937,
                            fx_mul_spec(
                                t,
                                fx_add_spec(-1_821_255_978, fx_mul_spec(t, 1_330_274_429)),
                            ),
                        ),
                    ),
                ),
            ),
        ),
    );
    let halfsq = fx_mul_spec(ax, fx_idiv_spec(ax, 2));
    let pdf = fx_mul_spec(INV_SQRT_2PI as int, exp_neg_spec(halfsq));
    let upper = fx_sub_spec(SCALE as int, fx_mul_spec(pdf, p));
    let uc = if upper < HALF_SCALE as int {
        HALF_SCALE as int
    } else if upper > SCALE as int {
        SCALE as int
    } else {
        upper
    };
    if x < 0 {
        fx_sub_spec(SCALE as int, uc)
    } else {
        uc
    }
}

/// Standard normal cumulative distribution function.
///
/// For the non-negative side the Zelen–Severo polynomial approximation is
/// used: `1 - pdf(x) * poly(1 / (1 + 0.2316419 x))`, clamped into
/// `[1/2, 1]`; the negative side is its reflection, so the result is always
/// in `[0, SCALE]` and sits on the correct side of one half.  The result is
/// exactly the value of [`norm_cdf_spec`].
pub fn norm_cdf(x: i64) -> (r: i64)
    ensures
        0 <= r <= SCALE,
        x >= 0 ==> r >= HALF_SCALE,
        x < 0 ==> r <= HALF_SCALE,
        r as int == norm_cdf_spec(x as int),
{
    let ax = fx_abs(x);
    proof {
        lemma_fx_mul_nonneg(231_641_900int, ax as int);
    }
    let t = fx_div(SCALE, fx_add(SCALE, fx_mul(231_641_900, ax)));
    let p = fx_mul(
        t,
        fx_add(
            319_381_530,
            fx_mul(
                t,
                fx_add(
                    -356_563_782,
                    fx_mul(
                        t,
                        fx_add(
                            1_781_477_937,
                            fx_mul(t, fx_add(-1_821_255_978, fx_mul(t, 1_330_274_429))),
                        ),
                    ),
                ),
            ),
        ),
    );
    let axh = fx_idiv(ax, 2);
    proof {
        lemma_fx_mul_nonneg(ax as int, axh as int);
    }
    let halfsq = fx_mul(ax, axh);
    let pdf = fx_mul(INV_SQRT_2PI, exp_neg(halfsq));
    let upper = fx_sub(SCALE, fx_mul(pdf, p));
    let uc: i64 = if upper < HALF_SCALE {
        HALF_SCALE
    } else if upper > SCALE {
        SCALE
    } else {
        upper
    };
    if x < 0 {
        fx_sub(SCALE, uc)
    } else {
        uc
    }
}

} // verus!
