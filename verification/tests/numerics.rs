//! Accuracy checks of the fixed-point arithmetic and elementary functions,
//! and of the closed-form European prices against known values.

use calculate_eeps::european::{price_european, OptionSide};
use calculate_eeps::fixed::{
    fx_add, fx_div, fx_idiv, fx_mul, fx_sqrt, fx_sub, HALF_SCALE, SCALE,
};
use calculate_eeps::math::{exp_neg, ln_fx, norm_cdf};

fn fx(x: f64) -> i64 {
    (x * SCALE as f64).round() as i64
}

fn assert_close(actual: i64, expected: i64, tol: i64, what: &str) {
    assert!(
        (actual - expected).abs() <= tol,
        "{}: got {}, expected {} (tol {})",
        what,
        actual,
        expected,
        tol
    );
}

#[test]
fn fixed_point_arithmetic_exact_cases() {
    assert_eq!(fx_add(fx(1.5), fx(2.25)), fx(3.75));
    assert_eq!(fx_sub(fx(1.0), fx(2.5)), fx(-1.5));
    assert_eq!(fx_mul(fx(2.0), fx(3.0)), fx(6.0));
    assert_eq!(fx_mul(fx(-2.0), fx(3.0)), fx(-6.0));
    assert_eq!(fx_div(fx(1.0), fx(3.0)), 333_333_333);
    assert_eq!(fx_div(fx(-1.0), fx(4.0)), fx(-0.25));
    assert_eq!(fx_div(fx(1.0), 0), 0);
    assert_eq!(fx_idiv(fx(7.0), 2), fx(3.5));
}

#[test]
fn fixed_point_saturates_instead_of_wrapping() {
    assert_eq!(fx_add(i64::MAX, i64::MAX), i64::MAX);
    assert_eq!(fx_sub(i64::MIN, 1), i64::MIN);
    assert_eq!(fx_mul(i64::MAX, i64::MAX), i64::MAX);
    assert_eq!(fx_mul(i64::MIN, i64::MAX), i64::MIN);
}

#[test]
fn square_root_exact_and_monotone() {
    assert_eq!(fx_sqrt(fx(4.0)), fx(2.0));
    assert_eq!(fx_sqrt(fx(2.25)), fx(1.5));
    assert_eq!(fx_sqrt(0), 0);
    assert_eq!(fx_sqrt(-fx(1.0)), 0);
    assert_close(fx_sqrt(fx(2.0)), 1_414_213_562, 2, "sqrt 2");
}

#[test]
fn logarithm_reference_values() {
    assert_eq!(ln_fx(SCALE), 0);
    assert_close(ln_fx(fx(2.718281828)), SCALE, 10_000, "ln e");
    assert_close(ln_fx(fx(2.0)), 693_147_181, 10_000, "ln 2");
    assert_close(ln_fx(fx(0.5)), -693_147_181, 10_000, "ln 1/2");
    assert_close(ln_fx(fx(10.0)), 2_302_585_093, 20_000, "ln 10");
}

#[test]
fn exponential_reference_values() {
    assert_eq!(exp_neg(0), SCALE);
    assert_close(exp_neg(SCALE), 367_879_441, 10_000, "exp(-1)");
    assert_close(exp_neg(fx(0.05)), 951_229_425, 10_000, "exp(-0.05)");
    assert_close(exp_neg(fx(5.0)), 6_737_947, 10_000, "exp(-5)");
    assert_eq!(exp_neg(fx(100.0)), 0);
}

#[test]
fn normal_cdf_reference_values_and_symmetry() {
    assert_close(norm_cdf(0), HALF_SCALE, 500, "cdf 0");
    assert_close(norm_cdf(fx(1.959964)), fx(0.975), 50_000, "cdf 1.96");
    assert_close(norm_cdf(fx(-1.959964)), fx(0.025), 50_000, "cdf -1.96");
    assert_close(norm_cdf(fx(3.0)), fx(0.99865), 50_000, "cdf 3");
    // Reflection is exact by construction, not merely approximate.
    let x = fx(0.7);
    assert_eq!(norm_cdf(-x), SCALE - norm_cdf(x));
    assert_eq!(norm_cdf(i64::MAX), SCALE);
    assert_eq!(norm_cdf(i64::MIN + 1), 0);
}

/// Black–Scholes prices for the standard benchmark inputs: spot 100,
/// strike 100, one year, rate five percent, volatility twenty percent.
#[test]
fn european_benchmark_prices() {
    let (s, k, t, r, v) = (fx(100.0), fx(100.0), fx(1.0), fx(0.05), fx(0.2));
    let call = price_european(s, k, t, r, v, OptionSide::Call);
    let put = price_european(s, k, t, r, v, OptionSide::Put);
    assert_close(call, fx(10.4506), fx(0.005), "benchmark call");
    assert_close(put, fx(5.5735), fx(0.005), "benchmark put");
    // Put-call parity: c - p == s - k * exp(-r t).
    let parity = fx(100.0) - fx_mul(fx(100.0), exp_neg(fx(0.05)));
    assert_close(call - put, parity, fx(0.001), "put-call parity");
}

/// Zero volatility or zero maturity short-circuits to the intrinsic value,
/// exactly.
#[test]
fn european_degenerate_inputs_give_intrinsic() {
    let (s, k, t, r) = (fx(120.0), fx(100.0), fx(1.0), fx(0.05));
    assert_eq!(price_european(s, k, t, r, 0, OptionSide::Call), fx(20.0));
    assert_eq!(price_european(s, k, t, r, 0, OptionSide::Put), 0);
    let v = fx(0.2);
    assert_eq!(price_european(s, k, 0, r, v, OptionSide::Call), fx(20.0));
    assert_eq!(price_european(fx(80.0), k, 0, r, v, OptionSide::Put), fx(20.0));
}
