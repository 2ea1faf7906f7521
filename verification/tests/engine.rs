//! End-to-end checks of the pricing engine on concrete quotes.

use calculate_eeps::american::{interpolate, price_american, solve_grid};
use calculate_eeps::eep::{
    adjusted_spot, compute_eep, effective_volatility, premium, truncation_bound, MarketQuote,
    PricingResult, DEFAULT_GRID, DEFAULT_MAX_ITER, DEFAULT_RELAX, DEFAULT_TOL,
};
use calculate_eeps::european::{intrinsic, price_european, OptionSide};
use calculate_eeps::fixed::SCALE;

/// A real number as a fixed-point i64.
fn fx(x: f64) -> i64 {
    (x * SCALE as f64).round() as i64
}

fn quote(spot: f64, strike: f64, maturity: f64, rate: f64, iv: f64, pv: f64) -> MarketQuote {
    MarketQuote {
        spot: fx(spot),
        strike: fx(strike),
        maturity: fx(maturity),
        rate: fx(rate),
        iv_put: fx(iv),
        iv_call: fx(iv),
        pv_divs: fx(pv),
    }
}

/// Benchmark scenario: at the money, one year, five percent rate, twenty
/// percent volatility, no dividends.  The American put carries a strictly
/// positive early-exercise premium; the call premium is numerically zero.
#[test]
fn benchmark_scenario_put_positive_call_zero() {
    let q = quote(100.0, 100.0, 1.0, 0.05, 0.2, 0.0);
    match compute_eep(&q, DEFAULT_GRID, DEFAULT_GRID) {
        PricingResult::Premiums { eep_call, eep_put } => {
            assert!(eep_put > fx(0.01), "eep_put = {}", eep_put);
            assert!(eep_call < fx(0.2), "eep_call = {}", eep_call);
            assert!(eep_call >= 0);
        }
        PricingResult::Undefined => panic!("premiums expected"),
    }
}

/// Premiums are never negative, over a spread of well-formed quotes.
#[test]
fn premiums_nonnegative() {
    let quotes = [
        quote(100.0, 100.0, 1.0, 0.05, 0.2, 0.0),
        quote(80.0, 100.0, 0.5, 0.01, 0.35, 2.0),
        quote(120.0, 100.0, 2.0, 0.03, 0.15, 5.0),
        quote(50.0, 45.0, 0.25, 0.0, 0.6, 0.0),
    ];
    for q in quotes {
        match compute_eep(&q, 60, 60) {
            PricingResult::Premiums { eep_call, eep_put } => {
                assert!(eep_call >= 0);
                assert!(eep_put >= 0);
            }
            PricingResult::Undefined => panic!("premiums expected"),
        }
    }
}

/// A dividend present value at or above the spot makes the adjusted spot
/// non-positive: the result is the undefined verdict, not a zero premium
/// and not a panic.
#[test]
fn adjusted_spot_nonpositive_is_undefined() {
    let q = quote(5.0, 100.0, 1.0, 0.05, 0.2, 10.0);
    assert_eq!(compute_eep(&q, 100, 100), PricingResult::Undefined);
    let q_eq = quote(10.0, 100.0, 1.0, 0.05, 0.2, 10.0);
    assert_eq!(compute_eep(&q_eq, 100, 100), PricingResult::Undefined);
}

/// The American price of a put never falls below the European price of the
/// same side and inputs: early exercise is never worth less than none.
#[test]
fn american_put_at_least_european() {
    let (s, k, t, r, v) = (fx(100.0), fx(100.0), fx(1.0), fx(0.05), fx(0.2));
    let s_max = fx(200.0);
    let a_put = price_american(
        s, k, t, r, v, s_max, 100, 100, OptionSide::Put, DEFAULT_RELAX, DEFAULT_TOL,
        DEFAULT_MAX_ITER,
    );
    let e_put = price_european(s, k, t, r, v, OptionSide::Put);
    assert!(a_put >= e_put, "a_put = {}, e_put = {}", a_put, e_put);
}

/// With a vanishing maturity both prices collapse to the intrinsic value
/// and the premium of each side vanishes.
#[test]
fn short_maturity_premium_vanishes() {
    let q = quote(100.0, 100.0, 0.001, 0.05, 0.2, 0.0);
    match compute_eep(&q, 100, 100) {
        PricingResult::Premiums { eep_call, eep_put } => {
            assert!(eep_call < fx(0.1), "eep_call = {}", eep_call);
            assert!(eep_put < fx(0.1), "eep_put = {}", eep_put);
        }
        PricingResult::Undefined => panic!("premiums expected"),
    }
}

/// With volatility and rate near zero an at-the-money put has no exercise
/// value, and a call on a dividend-free underlying never has: both
/// premiums vanish.
#[test]
fn low_vol_zero_rate_premiums_vanish() {
    let q = quote(100.0, 100.0, 1.0, 0.0, 0.01, 0.0);
    match compute_eep(&q, 100, 100) {
        PricingResult::Premiums { eep_call, eep_put } => {
            assert!(eep_call < fx(0.1), "eep_call = {}", eep_call);
            assert!(eep_put < fx(0.1), "eep_put = {}", eep_put);
        }
        PricingResult::Undefined => panic!("premiums expected"),
    }
}

/// Raising the volatility raises the price of both sides, American and
/// European alike.
#[test]
fn volatility_raises_prices() {
    let (s, k, t, r) = (fx(100.0), fx(100.0), fx(1.0), fx(0.05));
    let s_max = fx(200.0);
    let lo = fx(0.2);
    let hi = fx(0.3);
    for side in [OptionSide::Call, OptionSide::Put] {
        let e_lo = price_european(s, k, t, r, lo, side);
        let e_hi = price_european(s, k, t, r, hi, side);
        assert!(e_hi > e_lo, "european {:?}: {} vs {}", side, e_lo, e_hi);
        let a_lo = price_american(
            s, k, t, r, lo, s_max, 100, 100, side, DEFAULT_RELAX, DEFAULT_TOL, DEFAULT_MAX_ITER,
        );
        let a_hi = price_american(
            s, k, t, r, hi, s_max, 100, 100, side, DEFAULT_RELAX, DEFAULT_TOL, DEFAULT_MAX_ITER,
        );
        assert!(a_hi > a_lo, "american {:?}: {} vs {}", side, a_lo, a_hi);
    }
}

/// When the spot falls exactly on a grid node the solver's answer is that
/// node's computed value (floored at intrinsic), with no interpolation
/// error and no division by zero: spot 100 on a grid of 100 rows up to
/// 200 sits exactly on node 50.
#[test]
fn grid_node_interpolation_is_exact() {
    let (s, k, t, r, v) = (fx(100.0), fx(100.0), fx(1.0), fx(0.05), fx(0.2));
    let s_max = fx(200.0);
    let row = solve_grid(
        k, t, r, v, s_max, 100, 100, OptionSide::Put, DEFAULT_RELAX, DEFAULT_TOL,
        DEFAULT_MAX_ITER,
    );
    let d_s = s_max / 100;
    assert_eq!(s % d_s, 0);
    let node_value = row[(s / d_s) as usize];
    assert_eq!(interpolate(&row, d_s, s), node_value);
    let p = price_american(
        s, k, t, r, v, s_max, 100, 100, OptionSide::Put, DEFAULT_RELAX, DEFAULT_TOL,
        DEFAULT_MAX_ITER,
    );
    let floor_v = intrinsic(OptionSide::Put, s, k);
    assert_eq!(p, node_value.max(floor_v));
}

/// The solver inputs derived from a quote: spot less dividend value, the
/// mean of the two quoted volatilities, and a truncation bound of twice
/// the larger of adjusted spot and strike.
#[test]
fn quote_derivation_is_exact() {
    let q = MarketQuote {
        spot: fx(100.0),
        strike: fx(90.0),
        maturity: fx(1.0),
        rate: fx(0.05),
        iv_put: fx(0.2),
        iv_call: fx(0.3),
        pv_divs: fx(2.5),
    };
    assert_eq!(adjusted_spot(&q), fx(97.5));
    assert_eq!(effective_volatility(&q), fx(0.25));
    assert_eq!(truncation_bound(fx(97.5), fx(90.0)), fx(195.0));
    assert_eq!(truncation_bound(fx(80.0), fx(90.0)), fx(180.0));
}

/// Swapping the two quoted implied volatilities changes neither premium:
/// only their mean enters the pricing.
#[test]
fn swapped_volatilities_give_same_premiums() {
    let q1 = MarketQuote {
        spot: fx(100.0),
        strike: fx(95.0),
        maturity: fx(0.75),
        rate: fx(0.02),
        iv_put: fx(0.25),
        iv_call: fx(0.18),
        pv_divs: fx(1.0),
    };
    let q2 = MarketQuote { iv_put: q1.iv_call, iv_call: q1.iv_put, ..q1 };
    assert_eq!(compute_eep(&q1, 60, 60), compute_eep(&q2, 60, 60));
}

/// The premium is the difference clamped at zero, exactly.
#[test]
fn premium_is_clamped_difference() {
    assert_eq!(premium(fx(5.0), fx(10.0)), 0);
    assert_eq!(premium(fx(10.0), fx(3.0)), fx(7.0));
    assert_eq!(premium(fx(2.5), fx(2.5)), 0);
}
