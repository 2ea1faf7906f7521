//! Per-quote orchestration: derive solver inputs from a market quote, price
//! both sides American and European, and return the early-exercise premiums.

use vstd::prelude::*;
use crate::american::{american_price_spec, price_american};
use crate::european::{bs_price_spec, price_european, OptionSide};
use crate::fixed::{
    fx_add, fx_idiv, fx_max, fx_muln, fx_sub,
    fx_add_spec, fx_idiv_spec, fx_max_spec, fx_muln_spec, fx_sub_spec, SCALE,
};

verus! {

/// One market quote: every field is a fixed-point number of `1 / SCALE`
/// units.  The implied volatilities of the two sides are averaged into a
/// single effective volatility before pricing.
#[derive(Clone, Copy, Debug)]
pub struct MarketQuote {
    /// Price of the underlying.
    pub spot: i64,
    /// Strike of both options.
    pub strike: i64,
    /// Time to maturity in years.
    pub maturity: i64,
    /// Continuously compounded risk-free rate.
    pub rate: i64,
    /// Implied volatility quoted on the put side.
    pub iv_put: i64,
    /// Implied volatility quoted on the call side.
    pub iv_call: i64,
    /// Present value of all dividends through maturity.
    pub pv_divs: i64,
}

impl MarketQuote {
    /// A quote the engine accepts: non-negative prices, times, rates and
    /// volatilities, and a positive strike.
    pub open spec fn wf(self) -> bool {
        &&& 0 <= self.spot
        &&& 0 < self.strike
        &&& 0 <= self.maturity
        &&& 0 <= self.rate
        &&& 0 <= self.iv_put
        &&& 0 <= self.iv_call
        &&& 0 <= self.pv_divs
    }
}

/// Result of pricing one quote: either both premiums, or `Undefined` when
/// the dividend-adjusted spot is not positive.  `Undefined` is a per-quote
/// economic verdict, not an error, and is distinct from a zero premium.
#[derive(Clone, Copy, Debug, PartialEq, Eq, Structural)]
pub enum PricingResult {
    /// The dividend-adjusted spot was not positive; no premium exists.
    Undefined,
    /// The two clamped early-exercise premiums.
    Premiums { eep_call: i64, eep_put: i64 },
}

/// Over-relaxation factor of the default configuration: `1.2`.
pub const DEFAULT_RELAX: i64 = 1_200_000_000;

/// PSOR convergence threshold of the default configuration: `1e-3`.
pub const DEFAULT_TOL: i64 = 1_000_000;

/// PSOR iteration cap per time step of the default configuration.
pub const DEFAULT_MAX_ITER: u64 = 10_000;

/// Grid resolution (both axes) of the default configuration.
pub const DEFAULT_GRID: usize = 100;

/// The dividend-adjusted spot a quote derives: spot less dividend value.
pub open spec fn derived_spot_spec(quote: MarketQuote) -> int {
    fx_sub_spec(quote.spot as int, quote.pv_divs as int)
}

/// The effective volatility a quote derives: the mean of its two sides.
pub open spec fn derived_vol_spec(quote: MarketQuote) -> int {
    fx_idiv_spec(fx_add_spec(quote.iv_put as int, quote.iv_call as int), 2)
}

/// The truncation bound a quote derives: twice the larger of adjusted spot
/// and strike.
pub open spec fn derived_bound_spec(quote: MarketQuote) -> int {
    fx_max_spec(
        fx_muln_spec(derived_spot_spec(quote), 2),
        fx_muln_spec(quote.strike as int, 2),
    )
}

/// The clamped difference of an American and a European price.
pub open spec fn premium_spec(american: int, european: int) -> int {
    fx_max_spec(fx_sub_spec(american, european), 0)
}

/// Exact value of one side's premium in [`compute_eep`]: the American
/// finite-difference price of the derived inputs under the default tuning
/// constants, less the Black–Scholes price of the same inputs, clamped at
/// zero.
pub open spec fn eep_side_spec(
    quote: MarketQuote,
    grid_rows: int,
    grid_steps: int,
    side: OptionSide,
) -> int {
    premium_spec(
        american_price_spec(
            derived_spot_spec(quote),
            quote.strike as int,
            quote.maturity as int,
            quote.rate as int,
            derived_vol_spec(quote),
            derived_bound_spec(quote),
            grid_rows,
            grid_steps,
            side,
            DEFAULT_RELAX as int,
            DEFAULT_TOL as int,
            DEFAULT_MAX_ITER as int,
        ),
        bs_price_spec(
            side,
            derived_spot_spec(quote),
            quote.strike as int,
            quote.maturity as int,
            quote.rate as int,
            derived_vol_spec(quote),
        ),
    )
}

/// Swapping the two quoted implied volatilities leaves both premiums
/// unchanged: only their mean enters the pricing.
pub proof fn lemma_eep_vol_swap_invariant(
    q1: MarketQuote,
    q2: MarketQuote,
    grid_rows: int,
    grid_steps: int,
    side: OptionSide,
)
    requires
        q2.spot == q1.spot,
        q2.strike == q1.strike,
        q2.maturity == q1.maturity,
        q2.rate == q1.rate,
        q2.pv_divs == q1.pv_divs,
        q2.iv_put == q1.iv_call,
        q2.iv_call == q1.iv_put,
    ensures
        eep_side_spec(q1, grid_rows, grid_steps, side) == eep_side_spec(
            q2,
            grid_rows,
            grid_steps,
            side,
        ),
{
    assert(derived_vol_spec(q1) == derived_vol_spec(q2));
}

/// The dividend-adjusted spot of a quote: the spot less the present value
/// of all dividends through maturity, exactly.
pub fn adjusted_spot(quote: &MarketQuote) -> (r: i64)
    requires
        quote.wf(),
    ensures
        r as int == quote.spot - quote.pv_divs,
{
    fx_sub(quote.spot, quote.pv_divs)
}

/// The single effective volatility of a quote: the arithmetic mean of the
/// implied volatilities quoted on the put and call sides.
pub fn effective_volatility(quote: &MarketQuote) -> (r: i64)
    requires
        quote.wf(),
    ensures
        r as int == fx_idiv_spec(fx_add_spec(quote.iv_put as int, quote.iv_call as int), 2),
        r >= 0,
{
    fx_idiv(fx_add(quote.iv_put, quote.iv_call), 2)
}

/// The asset-price truncation bound for the solver: twice the larger of
/// the adjusted spot and the strike, so the grid comfortably covers the
/// relevant region for deep in- and out-of-the-money cases alike.
pub fn truncation_bound(s_adj: i64, strike: i64) -> (r: i64)
    ensures
        r as int == fx_max_spec(
            fx_muln_spec(s_adj as int, 2),
            fx_muln_spec(strike as int, 2),
        ),
{
    fx_max(fx_muln(s_adj, 2), fx_muln(strike, 2))
}

/// The early-exercise premium from an American and a European price of the
/// same side: their difference, clamped at zero because a premium cannot be
/// economically negative — numerical noise must not surface as one.
pub fn premium(american: i64, european: i64) -> (r: i64)
    ensures
        r as int == fx_max_spec(fx_sub_spec(american as int, european as int), 0),
        r >= 0,
{
    fx_max(fx_sub(american, european), 0)
}

/// Early-exercise premiums of one quote.
///
/// The two implied volatilities are averaged, the spot is reduced by the
/// dividend present value, and each side is priced American (on a grid
/// truncated at twice the larger of adjusted spot and strike) and European;
/// the premium of a side is the clamped difference, exactly the value of
/// [`eep_side_spec`].  A non-positive adjusted spot yields `Undefined` —
/// exactly then, never otherwise — and whenever premiums are produced both
/// are non-negative.
pub fn compute_eep(quote: &MarketQuote, grid_rows: usize, grid_steps: usize) -> (res:
    PricingResult)
    requires
        quote.wf(),
        2 <= grid_rows <= 100_000,
        1 <= grid_steps <= 1_000_000,
        quote.spot - quote.pv_divs > 0 ==> grid_rows as int <= fx_max_spec(
            2 * (quote.spot - quote.pv_divs),
            2 * (quote.strike as int),
        ),
    ensures
        match res {
            PricingResult::Undefined => quote.spot - quote.pv_divs <= 0,
            PricingResult::Premiums { eep_call, eep_put } => quote.spot - quote.pv_divs > 0
                && eep_call >= 0 && eep_put >= 0 && eep_call as int == eep_side_spec(
                *quote,
                grid_rows as int,
                grid_steps as int,
                OptionSide::Call,
            ) && eep_put as int == eep_side_spec(
                *quote,
                grid_rows as int,
                grid_steps as int,
                OptionSide::Put,
            ),
        },
{
    let s_adj = adjusted_spot(quote);
    if s_adj <= 0 {
        return PricingResult::Undefined;
    }
    let sigma = effective_volatility(quote);
    let s_max = truncation_bound(s_adj, quote.strike);
    let a_call = price_american(
        s_adj, quote.strike, quote.maturity, quote.rate, sigma, s_max, grid_rows, grid_steps,
        OptionSide::Call, DEFAULT_RELAX, DEFAULT_TOL, DEFAULT_MAX_ITER,
    );
    let a_put = price_american(
        s_adj, quote.strike, quote.maturity, quote.rate, sigma, s_max, grid_rows, grid_steps,
        OptionSide::Put, DEFAULT_RELAX, DEFAULT_TOL, DEFAULT_MAX_ITER,
    );
    let e_call = price_european(s_adj, quote.strike, quote.maturity, quote.rate, sigma,
        OptionSide::Call);
    let e_put = price_european(s_adj, quote.strike, quote.maturity, quote.rate, sigma,
        OptionSide::Put);
    let eep_call = premium(a_call, e_call);
    let eep_put = premium(a_put, e_put);
    PricingResult::Premiums { eep_call, eep_put }
}

} // verus!
