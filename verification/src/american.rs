//! Finite-difference valuation of an American vanilla option.
//!
//! The solver discretises the Black–Scholes partial differential equation on
//! a uniform price grid with Crank–Nicolson time stepping, and enforces the
//! early-exercise constraint at every node with projected successive
//! over-relaxation (PSOR): each Gauss–Seidel update is floored at the
//! exercise payoff of its node.  That projection is the verified heart of
//! the module: every time level handed on by [`solve_grid`] provably keeps
//! each interior node at or above its exercise payoff and its two boundary
//! columns pinned at the analytic deep-in/out-of-the-money values.
//!
//! [`interpolate`] reads a price off a time level with an exactly specified
//! linear interpolation whose zero-width case is guarded, and
//! [`price_american`] floors the interpolated price at the immediate
//! exercise value of the spot.

use vstd::prelude::*;
use crate::european::{intrinsic, intrinsic_spec, OptionSide};
use crate::fixed::{
    fx_abs, fx_add, fx_div, fx_max, fx_mul, fx_muln, fx_sub,
    fx_add_spec, fx_clip, fx_div_spec, fx_div_total_spec, fx_max_spec, fx_mul_spec,
    fx_muln_spec, fx_sub_spec, iabs,
    HALF_SCALE, QUARTER_SCALE, SCALE,
};
use vstd::arithmetic::div_mod::{
    lemma_div_by_self, lemma_div_is_ordered, lemma_div_multiples_vanish,
    lemma_div_nonincreasing, lemma_div_pos_is_pos, lemma_fundamental_div_mod, lemma_mod_bound,
};
use vstd::arithmetic::mul::{
    lemma_mul_is_commutative, lemma_mul_inequality, lemma_mul_nonnegative,
};

verus! {

/// Grid spacing: the price axis from zero to `s_max` cut into `m` equal
/// steps, rounded down to a whole number of fixed-point units.
pub open spec fn spacing(s_max: int, m: int) -> int {
    s_max / m
}

/// Unclamped exercise payoff at asset price `s`: what exercising is worth,
/// allowed to be negative where exercising is worthless.
pub open spec fn raw_payoff_spec(side: OptionSide, k: int, s: int) -> int {
    match side {
        OptionSide::Call => s - k,
        OptionSide::Put => k - s,
    }
}

/// Value pinned at the zero-price boundary: a put pays the full strike, a
/// call is worthless.
pub open spec fn boundary_low_spec(side: OptionSide, k: int) -> int {
    match side {
        OptionSide::Call => 0,
        OptionSide::Put => k,
    }
}

/// Value pinned at the truncation boundary `s_max`: a call is worth the
/// forward payoff there, a put is worthless.
pub open spec fn boundary_high_spec(side: OptionSide, k: int, s_max: int) -> int {
    match side {
        OptionSide::Call => s_max - k,
        OptionSide::Put => 0,
    }
}

/// Shape of one time level of the grid: `m + 1` nodes, the two boundary
/// columns at their analytic values, and every interior node at or above
/// its unclamped exercise payoff — the early-exercise constraint.
pub open spec fn row_ok(row: Seq<i64>, side: OptionSide, k: int, s_max: int, m: int) -> bool {
    &&& row.len() == m + 1
    &&& row[0] as int == boundary_low_spec(side, k)
    &&& row[m] as int == boundary_high_spec(side, k, s_max)
    &&& forall|i: int|
        1 <= i < m ==> (#[trigger] row[i]) as int >= raw_payoff_spec(
            side,
            k,
            spacing(s_max, m) * i,
        )
}

/// Every node `spacing * i` of the grid lies between zero and `s_max`, and
/// the spacing itself is at least one unit.
pub proof fn lemma_node_in_range(s_max: int, m: int, i: int)
    requires
        1 <= m <= s_max,
        0 <= i <= m,
    ensures
        1 <= spacing(s_max, m),
        0 <= spacing(s_max, m) * i <= s_max,
{
    let d = s_max / m;
    lemma_div_pos_is_pos(s_max, m);
    lemma_div_is_ordered(m, s_max, m);
    lemma_div_by_self(m);
    lemma_mul_nonnegative(i, d);
    lemma_mul_inequality(i, m, d);
    lemma_fundamental_div_mod(s_max, m);
    lemma_mod_bound(s_max, m);
    lemma_mul_is_commutative(d, i);
    lemma_mul_is_commutative(d, m);
}

/// Division of non-negative machine numbers through unsigned hardware
/// division.
fn udiv(a: i64, b: i64) -> (q: i64)
    requires
        0 <= a,
        1 <= b,
    ensures
        q as int == a as int / b as int,
{
    proof {
        lemma_div_pos_is_pos(a as int, b as int);
        lemma_div_nonincreasing(a as int, b as int);
    }
    ((a as u128) / (b as u128)) as i64
}

/// Exact value of [`interpolate`]: locate the bracketing nodes of `spot`,
/// return the node value where the spot sits on a node or the bracket has
/// zero width, and interpolate linearly otherwise.
pub open spec fn interp_spec(values: Seq<i64>, d_s: int, spot: int) -> int {
    let m = values.len() - 1;
    let q = spot / d_s;
    let idx = if q >= m {
        m - 1
    } else {
        q
    };
    let s_lo = fx_muln_spec(d_s, idx);
    if spot == s_lo {
        values[idx] as int
    } else {
        let s_hi = fx_muln_spec(d_s, idx + 1);
        let num = fx_sub_spec(spot, s_lo);
        let den = fx_sub_spec(s_hi, s_lo);
        if den == 0 {
            values[idx] as int
        } else {
            fx_add_spec(
                values[idx] as int,
                fx_mul_spec(
                    fx_sub_spec(values[idx + 1] as int, values[idx] as int),
                    fx_div_spec(num, den),
                ),
            )
        }
    }
}

/// Linear interpolation of a grid row at an arbitrary spot, with the
/// zero-width bracket guarded explicitly instead of dividing by zero.
pub fn interpolate(values: &Vec<i64>, d_s: i64, spot: i64) -> (r: i64)
    requires
        2 <= values.len() <= 1_000_000,
        1 <= d_s,
        0 <= spot,
    ensures
        r as int == interp_spec(values@, d_s as int, spot as int),
{
    let m: usize = values.len() - 1;
    let qb: u128 = (spot as u128) / (d_s as u128);
    proof {
        lemma_div_pos_is_pos(spot as int, d_s as int);
    }
    let idx: usize = if qb >= m as u128 {
        m - 1
    } else {
        qb as usize
    };
    let s_lo = fx_muln(d_s, idx as i64);
    if spot == s_lo {
        return values[idx];
    }
    let s_hi = fx_muln(d_s, (idx + 1) as i64);
    let num = fx_sub(spot, s_lo);
    let den = fx_sub(s_hi, s_lo);
    if den == 0 {
        return values[idx];
    }
    let frac = fx_div(num, den);
    fx_add(values[idx], fx_mul(fx_sub(values[idx + 1], values[idx]), frac))
}

/// Interpolating exactly at an interior grid node returns that node's value:
/// the bracketing index collapses onto the node and no division happens.
pub proof fn lemma_interp_at_node(values: Seq<i64>, d_s: int, i: int)
    requires
        2 <= values.len(),
        1 <= d_s,
        0 <= i < values.len() - 1,
        d_s * i <= i64::MAX as int,
    ensures
        interp_spec(values, d_s, d_s * i) == values[i] as int,
{
    let spot = d_s * i;
    lemma_mul_nonnegative(d_s, i);
    lemma_div_multiples_vanish(i, d_s);
    assert(spot / d_s == i);
}

/// The scalar inputs of one grid solve, gathered for the specification of
/// the backward sweep.
pub struct SolveParams {
    pub side: OptionSide,
    pub strike: int,
    pub d_s: int,
    pub dt: int,
    pub rate: int,
    pub sigma: int,
    pub omega: int,
    pub m: int,
}

/// One projected Gauss–Seidel update at interior node `i`: the
/// Crank–Nicolson coefficients, the explicit right-hand side from the next
/// time level `prev`, the relaxed update from the current level `cur`, and
/// the early-exercise projection.
pub open spec fn cn_node(p: SolveParams, prev: Seq<i64>, cur: Seq<i64>, i: int) -> int {
    let sig2ii = fx_muln_spec(fx_mul_spec(p.sigma, p.sigma), i * i);
    let r_i = fx_muln_spec(p.rate, i);
    let qdt = fx_mul_spec(p.dt, QUARTER_SCALE as int);
    let hdt = fx_mul_spec(p.dt, HALF_SCALE as int);
    let alpha = fx_mul_spec(qdt, fx_sub_spec(sig2ii, r_i));
    let beta_mag = fx_mul_spec(hdt, fx_add_spec(sig2ii, p.rate));
    let gamma = fx_mul_spec(qdt, fx_add_spec(sig2ii, r_i));
    let b = fx_add_spec(SCALE as int, beta_mag);
    let one_plus_beta = fx_sub_spec(SCALE as int, beta_mag);
    let d = fx_add_spec(
        fx_add_spec(
            fx_mul_spec(alpha, prev[i - 1] as int),
            fx_mul_spec(one_plus_beta, prev[i] as int),
        ),
        fx_mul_spec(gamma, prev[i + 1] as int),
    );
    let gs = fx_add_spec(
        d,
        fx_add_spec(fx_mul_spec(alpha, cur[i - 1] as int), fx_mul_spec(gamma, cur[i + 1] as int)),
    );
    let relax = fx_add_spec(
        fx_mul_spec(fx_sub_spec(SCALE as int, p.omega), cur[i] as int),
        fx_mul_spec(fx_div_total_spec(p.omega, b), gs),
    );
    let s_i = fx_muln_spec(p.d_s, i);
    let raw = match p.side {
        OptionSide::Call => fx_sub_spec(s_i, p.strike),
        OptionSide::Put => fx_sub_spec(p.strike, s_i),
    };
    fx_max_spec(relax, raw)
}

/// One PSOR sweep over the interior nodes from `i` through `m - 1`,
/// carrying the largest nodal change; returns the updated level and that
/// change.
pub open spec fn psor_pass(p: SolveParams, prev: Seq<i64>, cur: Seq<i64>, err: int, i: int) -> (
    Seq<i64>,
    int,
)
    decreases p.m - i,
{
    if i >= p.m {
        (cur, err)
    } else {
        let v_new = cn_node(p, prev, cur, i);
        let e2 = fx_max_spec(err, fx_clip(iabs(fx_sub_spec(v_new, cur[i] as int))));
        psor_pass(p, prev, cur.update(i, v_new as i64), e2, i + 1)
    }
}

/// PSOR sweeps repeated until the largest nodal change drops to the
/// tolerance or the iteration cap is reached.
pub open spec fn psor_iterate(
    p: SolveParams,
    prev: Seq<i64>,
    cur: Seq<i64>,
    err: int,
    it: int,
    tol: int,
    max_iter: int,
) -> Seq<i64>
    decreases max_iter - it,
{
    if err > tol && it < max_iter {
        let pass = psor_pass(p, prev, cur, 0, 1);
        psor_iterate(p, prev, pass.0, pass.1, it + 1, tol, max_iter)
    } else {
        cur
    }
}

/// The first `n` nodes of the terminal payoff row.
pub open spec fn payoff_prefix(p: SolveParams, n: int) -> Seq<i64>
    decreases n,
{
    if n <= 0 {
        Seq::empty()
    } else {
        payoff_prefix(p, n - 1).push(
            intrinsic_spec(p.side, fx_muln_spec(p.d_s, n - 1), p.strike) as i64,
        )
    }
}

/// The terminal condition: the intrinsic payoff at every node, with the two
/// boundary columns pinned at their analytic values.
pub open spec fn terminal_row(p: SolveParams, s_max: int) -> Seq<i64> {
    let bl = boundary_low_spec(p.side, p.strike) as i64;
    let bh = fx_sub_spec(s_max, p.strike) as i64;
    let bh_side = match p.side {
        OptionSide::Call => bh,
        OptionSide::Put => 0i64,
    };
    payoff_prefix(p, p.m + 1).update(0, bl).update(p.m, bh_side)
}

/// The grid level reached after stepping `steps` times backward from the
/// terminal row, each step one PSOR relaxation of the previous level.
pub open spec fn time_levels(
    p: SolveParams,
    s_max: int,
    steps: int,
    tol: int,
    max_iter: int,
) -> Seq<i64>
    decreases steps,
{
    if steps <= 0 {
        terminal_row(p, s_max)
    } else {
        let lvl = time_levels(p, s_max, steps - 1, tol, max_iter);
        psor_iterate(p, lvl, lvl, SCALE as int, 0, tol, max_iter)
    }
}

/// Exact value of [`solve_grid`]: the inputs assembled into [`SolveParams`]
/// and the backward sweep run over all `grid_steps` time levels.
pub open spec fn solve_spec(
    strike: int,
    maturity: int,
    rate: int,
    sigma: int,
    s_max: int,
    grid_rows: int,
    grid_steps: int,
    side: OptionSide,
    omega: int,
    tol: int,
    max_iter: int,
) -> Seq<i64> {
    let p = SolveParams {
        side,
        strike,
        d_s: spacing(s_max, grid_rows),
        dt: maturity / grid_steps,
        rate,
        sigma,
        omega,
        m: grid_rows,
    };
    time_levels(p, s_max, grid_steps, tol, max_iter)
}

/// Exact value of [`price_american`]: the time-zero level interpolated at
/// the spot and floored at the immediate-exercise value.
pub open spec fn american_price_spec(
    spot: int,
    strike: int,
    maturity: int,
    rate: int,
    sigma: int,
    s_max: int,
    grid_rows: int,
    grid_steps: int,
    side: OptionSide,
    omega: int,
    tol: int,
    max_iter: int,
) -> int {
    fx_max_spec(
        interp_spec(
            solve_spec(
                strike, maturity, rate, sigma, s_max, grid_rows, grid_steps, side, omega, tol,
                max_iter,
            ),
            spacing(s_max, grid_rows),
            spot,
        ),
        intrinsic_spec(side, spot, strike),
    )
}

/// Early exercise is never worth less than none: wherever the European
/// price is its intrinsic payoff — whenever the total volatility
/// `sigma * sqrt(maturity)` truncates to zero — the American price is at
/// least the European price of the same side and inputs, because it is
/// floored at that same payoff.  For positive total volatility the relation
/// holds of the limits the two schemes approximate and is checked
/// empirically, not proved: discretisation noise can undercut it by a few
/// units, which is the very reason the premium is clamped at zero.
pub proof fn lemma_american_at_least_european_degenerate(
    spot: int,
    strike: int,
    maturity: int,
    rate: int,
    sigma: int,
    s_max: int,
    grid_rows: int,
    grid_steps: int,
    side: OptionSide,
    omega: int,
    tol: int,
    max_iter: int,
)
    requires
        fx_mul_spec(sigma, crate::fixed::fx_sqrt_spec(maturity)) == 0,
    ensures
        american_price_spec(
            spot, strike, maturity, rate, sigma, s_max, grid_rows, grid_steps, side, omega,
            tol, max_iter,
        ) >= crate::european::bs_price_spec(side, spot, strike, maturity, rate, sigma),
{
}

/// Runs the backward Crank–Nicolson / PSOR sweep from the terminal payoff
/// to time zero and returns the time-zero level of the grid.
///
/// The returned level provably has its boundary columns at the analytic
/// boundary values and every interior node at or above its exercise payoff.
/// A PSOR pass that fails to reach `tol` within `max_iter` iterations is
/// accepted as it stands; non-convergence is an accuracy tradeoff, never an
/// error.
#[verifier::loop_isolation(false)]
pub fn solve_grid(
    strike: i64,
    maturity: i64,
    rate: i64,
    sigma: i64,
    s_max: i64,
    grid_rows: usize,
    grid_steps: usize,
    side: OptionSide,
    omega: i64,
    tol: i64,
    max_iter: u64,
) -> (row: Vec<i64>)
    requires
        0 <= strike,
        0 <= maturity,
        0 <= rate,
        0 <= sigma,
        2 <= grid_rows <= 100_000,
        1 <= grid_steps <= 1_000_000,
        grid_rows as int <= s_max as int,
        (SCALE as int) < (omega as int) < 2 * (SCALE as int),
        0 < tol,
    ensures
        row_ok(row@, side, strike as int, s_max as int, grid_rows as int),
        row@ == solve_spec(
            strike as int,
            maturity as int,
            rate as int,
            sigma as int,
            s_max as int,
            grid_rows as int,
            grid_steps as int,
            side,
            omega as int,
            tol as int,
            max_iter as int,
        ),
{
    let m: usize = grid_rows;
    let d_s: i64 = udiv(s_max, m as i64);
    let dt: i64 = udiv(maturity, grid_steps as i64);
    let ghost gp = SolveParams {
        side,
        strike: strike as int,
        d_s: d_s as int,
        dt: dt as int,
        rate: rate as int,
        sigma: sigma as int,
        omega: omega as int,
        m: m as int,
    };
    let b_low: i64 = match side {
        OptionSide::Call => 0,
        OptionSide::Put => strike,
    };
    let b_high: i64 = match side {
        OptionSide::Call => fx_sub(s_max, strike),
        OptionSide::Put => 0,
    };
    // Terminal condition: the intrinsic payoff at every node, with the two
    // boundary columns then pinned at their analytic values.
    let mut prev: Vec<i64> = Vec::new();
    let mut i: usize = 0;
    while i <= m
        invariant
            prev.len() == i,
            i <= m + 1,
            forall|q: int|
                0 <= q < i ==> (#[trigger] prev@[q]) as int >= raw_payoff_spec(
                    side,
                    strike as int,
                    spacing(s_max as int, m as int) * q,
                ),
            prev@ == payoff_prefix(gp, i as int),
        decreases m + 1 - i,
    {
        proof {
            lemma_node_in_range(s_max as int, m as int, i as int);
        }
        let s_i = fx_muln(d_s, i as i64);
        let pay = intrinsic(side, s_i, strike);
        prev.push(pay);
        i = i + 1;
    }
    prev[0] = b_low;
    prev[m] = b_high;
    proof {
        lemma_node_in_range(s_max as int, m as int, 0);
        assert(row_ok(prev@, side, strike as int, s_max as int, m as int));
        assert(prev@ == terminal_row(gp, s_max as int));
    }
    // Backward time stepping from maturity to the present.
    let mut j: usize = 0;
    while j < grid_steps
        invariant
            j <= grid_steps,
            row_ok(prev@, side, strike as int, s_max as int, m as int),
            prev@ == time_levels(gp, s_max as int, j as int, tol as int, max_iter as int),
        decreases grid_steps - j,
    {
        // Initialise the new time level with the previous level's values.
        let mut cur: Vec<i64> = Vec::new();
        let mut ci: usize = 0;
        while ci <= m
            invariant
                cur.len() == ci,
                ci <= m + 1,
                forall|q: int| 0 <= q < ci ==> cur@[q] == prev@[q],
            decreases m + 1 - ci,
        {
            let v = prev[ci];
            cur.push(v);
            ci = ci + 1;
        }
        proof {
            assert(cur@ =~= prev@);
        }
        // PSOR: relax until the largest nodal change drops below `tol` or
        // the iteration cap is reached.
        let mut err: i64 = SCALE;
        let mut it: u64 = 0;
        while err > tol && it < max_iter
            invariant
                row_ok(cur@, side, strike as int, s_max as int, m as int),
                psor_iterate(
                    gp,
                    prev@,
                    cur@,
                    err as int,
                    it as int,
                    tol as int,
                    max_iter as int,
                ) == psor_iterate(
                    gp,
                    prev@,
                    prev@,
                    SCALE as int,
                    0,
                    tol as int,
                    max_iter as int,
                ),
            decreases max_iter - it,
        {
            let ghost cur0 = cur@;
            err = 0;
            let mut ix: usize = 1;
            while ix < m
                invariant
                    1 <= ix <= m,
                    row_ok(cur@, side, strike as int, s_max as int, m as int),
                    psor_pass(gp, prev@, cur@, err as int, ix as int) == psor_pass(
                        gp,
                        prev@,
                        cur0,
                        0,
                        1,
                    ),
                decreases m - ix,
            {
                proof {
                    lemma_node_in_range(s_max as int, m as int, ix as int);
                    assert((ix as int) * (ix as int) <= 10_000_000_000int) by (nonlinear_arith)
                        requires
                            0 <= ix as int <= 100_000int,
                    ;
                }
                // Crank–Nicolson coefficients at node `ix`.
                let ii: i64 = (ix as i64) * (ix as i64);
                let sig2 = fx_mul(sigma, sigma);
                let sig2ii = fx_muln(sig2, ii);
                let r_i = fx_muln(rate, ix as i64);
                let qdt = fx_mul(dt, QUARTER_SCALE);
                let hdt = fx_mul(dt, HALF_SCALE);
                let alpha = fx_mul(qdt, fx_sub(sig2ii, r_i));
                let beta_mag = fx_mul(hdt, fx_add(sig2ii, rate));
                let gamma = fx_mul(qdt, fx_add(sig2ii, r_i));
                let b = fx_add(SCALE, beta_mag);
                let one_plus_beta = fx_sub(SCALE, beta_mag);
                // Explicit right-hand side from the known next time level.
                let d = fx_add(
                    fx_add(fx_mul(alpha, prev[ix - 1]), fx_mul(one_plus_beta, prev[ix])),
                    fx_mul(gamma, prev[ix + 1]),
                );
                let v_old = cur[ix];
                // Relaxed Gauss–Seidel update from the already-updated lower
                // neighbour and the still-old upper neighbour.
                let gs = fx_add(d, fx_add(fx_mul(alpha, cur[ix - 1]), fx_mul(gamma, cur[ix + 1])));
                let relax = fx_add(fx_mul(fx_sub(SCALE, omega), v_old), fx_mul(fx_div(omega, b), gs));
                // Early-exercise constraint: never drop below the payoff.
                let s_i = fx_muln(d_s, ix as i64);
                let raw: i64 = match side {
                    OptionSide::Call => fx_sub(s_i, strike),
                    OptionSide::Put => fx_sub(strike, s_i),
                };
                let v_new = fx_max(relax, raw);
                proof {
                    assert(v_new as int == cn_node(gp, prev@, cur@, ix as int));
                }
                err = fx_max(err, fx_abs(fx_sub(v_new, v_old)));
                cur[ix] = v_new;
                ix = ix + 1;
            }
            proof {
                assert(psor_pass(gp, prev@, cur@, err as int, m as int) == (cur@, err as int));
            }
            it = it + 1;
        }
        proof {
            assert(psor_iterate(
                gp,
                prev@,
                cur@,
                err as int,
                it as int,
                tol as int,
                max_iter as int,
            ) == cur@);
        }
        prev = cur;
        j = j + 1;
    }
    proof {
        let p2 = SolveParams {
            side,
            strike: strike as int,
            d_s: spacing(s_max as int, grid_rows as int),
            dt: maturity as int / grid_steps as int,
            rate: rate as int,
            sigma: sigma as int,
            omega: omega as int,
            m: grid_rows as int,
        };
        assert(gp == p2);
    }
    prev
}

/// Price of an American option: solve the grid backward to time zero,
/// interpolate at the spot, and floor at the immediate-exercise value.
/// The result is never below the intrinsic payoff, hence never negative.
pub fn price_american(
    spot: i64,
    strike: i64,
    maturity: i64,
    rate: i64,
    sigma: i64,
    s_max: i64,
    grid_rows: usize,
    grid_steps: usize,
    side: OptionSide,
    omega: i64,
    tol: i64,
    max_iter: u64,
) -> (p: i64)
    requires
        0 <= spot,
        0 <= strike,
        0 <= maturity,
        0 <= rate,
        0 <= sigma,
        2 <= grid_rows <= 100_000,
        1 <= grid_steps <= 1_000_000,
        grid_rows as int <= s_max as int,
        (SCALE as int) < (omega as int) < 2 * (SCALE as int),
        0 < tol,
    ensures
        p as int >= intrinsic_spec(side, spot as int, strike as int),
        p as int >= 0,
        p as int == american_price_spec(
            spot as int,
            strike as int,
            maturity as int,
            rate as int,
            sigma as int,
            s_max as int,
            grid_rows as int,
            grid_steps as int,
            side,
            omega as int,
            tol as int,
            max_iter as int,
        ),
{
    let row = solve_grid(
        strike, maturity, rate, sigma, s_max, grid_rows, grid_steps, side, omega, tol, max_iter,
    );
    let d_s = udiv(s_max, grid_rows as i64);
    proof {
        lemma_node_in_range(s_max as int, grid_rows as int, 0);
    }
    let p0 = interpolate(&row, d_s, spot);
    let floor_v = intrinsic(side, spot, strike);
    fx_max(p0, floor_v)
}

} // verus!
