//! Closed-form Black–Scholes valuation of a European vanilla option.
//!
//! `price_european` computes `d1`, `d2` and the discounted expectation from
//! the fixed-point elementary functions.  When the total volatility
//! `vol * sqrt(maturity)` is zero the formula degenerates (its divisor
//! vanishes); the contract then promises exactly the intrinsic payoff, the
//! guarded behaviour the numerical-degeneracy policy asks for.

use vstd::prelude::*;
use crate::fixed::{
    fx_add, fx_div, fx_idiv, fx_max, fx_mul, fx_neg, fx_sub, fx_sqrt,
    fx_add_spec, fx_clip, fx_div_total_spec, fx_idiv_spec, fx_mul_spec, fx_sqrt_spec,
    fx_sub_spec,
    lemma_fx_mul_nonneg, lemma_fx_mul_unit_bound, lemma_fx_mul_zero,
    SCALE,
};
use crate::math::{exp_neg, exp_neg_spec, ln_fx, ln_spec, norm_cdf, norm_cdf_spec};

verus! {

/// The side of a vanilla option: the right to buy, or the right to sell.
#[derive(Clone, Copy, Debug, PartialEq, Eq, Structural)]
pub enum OptionSide {
    Call,
    Put,
}

/// Payoff of immediate exercise: `max(s - k, 0)` for a call,
/// `max(k - s, 0)` for a put.
pub open spec fn intrinsic_spec(side: OptionSide, s: int, k: int) -> int {
    match side {
        OptionSide::Call => if s - k > 0 {
            s - k
        } else {
            0
        },
        OptionSide::Put => if k - s > 0 {
            k - s
        } else {
            0
        },
    }
}

/// Immediate-exercise payoff of an option.
pub fn intrinsic(side: OptionSide, s: i64, k: i64) -> (r: i64)
    requires
        0 <= s,
        0 <= k,
    ensures
        r as int == intrinsic_spec(side, s as int, k as int),
{
    match side {
        OptionSide::Call => fx_max(fx_sub(s, k), 0),
        OptionSide::Put => fx_max(fx_sub(k, s), 0),
    }
}

/// Logarithm assigned to a spot-to-strike ratio that truncates to zero in
/// fixed point: the spot is then vanishingly small against the strike, and
/// any value at most `ln` of one representable unit keeps the call side of
/// the formula at zero.
pub const DEEP_OTM_LOG: i64 = -46_000_000_000;

/// Exact value of [`price_european`]: the fixed-point Black–Scholes
/// evaluation — `d1`, `d2`, the discount and the normal CDF — or the
/// intrinsic payoff where the total volatility `sigma * sqrt(t)` truncates
/// to zero.
pub open spec fn bs_price_spec(side: OptionSide, s: int, k: int, t: int, r: int, sigma: int)
    -> int {
    let st = fx_mul_spec(sigma, fx_sqrt_spec(t));
    if st == 0 {
        intrinsic_spec(side, s, k)
    } else {
        let ratio = fx_div_total_spec(s, k);
        let lnr = if ratio > 0 {
            ln_spec(ratio)
        } else {
            DEEP_OTM_LOG as int
        };
        let sig2h = fx_idiv_spec(fx_mul_spec(sigma, sigma), 2);
        let drift = fx_mul_spec(fx_add_spec(r, sig2h), t);
        let d1 = fx_div_total_spec(fx_add_spec(lnr, drift), st);
        let d2 = fx_sub_spec(d1, st);
        let kd = fx_mul_spec(k, exp_neg_spec(fx_mul_spec(r, t)));
        match side {
            OptionSide::Call => fx_sub_spec(
                fx_mul_spec(s, norm_cdf_spec(d1)),
                fx_mul_spec(kd, norm_cdf_spec(d2)),
            ),
            OptionSide::Put => fx_sub_spec(
                fx_mul_spec(kd, norm_cdf_spec(fx_clip(-d2))),
                fx_mul_spec(s, norm_cdf_spec(fx_clip(-d1))),
            ),
        }
    }
}

/// Black–Scholes price of a European option: exactly the value of
/// [`bs_price_spec`].
///
/// Whenever the total volatility `sigma * sqrt(t)` truncates to zero — in
/// particular for zero volatility or zero maturity — the result is exactly
/// the intrinsic payoff.  In every case the price lies between `-k` and `s`
/// for a call and between `-s` and `k` for a put — the bounds forced by
/// `0 <= cdf <= 1` and `0 <= discount <= 1`.
pub fn price_european(s: i64, k: i64, t: i64, r: i64, sigma: i64, side: OptionSide) -> (p: i64)
    requires
        0 < s,
        0 < k,
        0 <= t,
        0 <= r,
        0 <= sigma,
    ensures
        p as int == bs_price_spec(side, s as int, k as int, t as int, r as int, sigma as int),
        fx_mul_spec(sigma as int, fx_sqrt_spec(t as int)) == 0 ==> p as int == intrinsic_spec(
            side,
            s as int,
            k as int,
        ),
        (sigma == 0 || t == 0) ==> p as int == intrinsic_spec(side, s as int, k as int),
        side == OptionSide::Call ==> -(k as int) <= p as int <= s as int,
        side == OptionSide::Put ==> -(s as int) <= p as int <= k as int,
{
    let sq = fx_sqrt(t);
    proof {
        lemma_fx_mul_zero(sigma as int);
        lemma_fx_mul_zero(sq as int);
        lemma_fx_mul_nonneg(sigma as int, sq as int);
    }
    let st = fx_mul(sigma, sq);
    if st == 0 {
        // Degenerate total volatility: the option is worth its intrinsic value.
        return intrinsic(side, s, k);
    }
    let ratio = fx_div(s, k);
    let lnr: i64 = if ratio > 0 {
        ln_fx(ratio)
    } else {
        // s/k truncated to zero: deep out of the money for the call side.
        DEEP_OTM_LOG
    };
    let sig2h = fx_idiv(fx_mul(sigma, sigma), 2);
    let drift = fx_mul(fx_add(r, sig2h), t);
    let d1 = fx_div(fx_add(lnr, drift), st);
    let d2 = fx_sub(d1, st);
    proof {
        lemma_fx_mul_nonneg(r as int, t as int);
    }
    let disc = exp_neg(fx_mul(r, t));
    let kd = fx_mul(k, disc);
    proof {
        lemma_fx_mul_unit_bound(k as int, disc as int);
    }
    match side {
        OptionSide::Call => {
            let n1 = norm_cdf(d1);
            let n2 = norm_cdf(d2);
            proof {
                lemma_fx_mul_unit_bound(s as int, n1 as int);
                lemma_fx_mul_unit_bound(kd as int, n2 as int);
            }
            fx_sub(fx_mul(s, n1), fx_mul(kd, n2))
        },
        OptionSide::Put => {
            let n1 = norm_cdf(fx_neg(d2));
            let n2 = norm_cdf(fx_neg(d1));
            proof {
                lemma_fx_mul_unit_bound(kd as int, n1 as int);
                lemma_fx_mul_unit_bound(s as int, n2 as int);
            }
            fx_sub(fx_mul(kd, n1), fx_mul(s, n2))
        },
    }
}

} // verus!
