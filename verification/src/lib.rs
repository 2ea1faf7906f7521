//! A deterministic pricing engine for the early-exercise premium of
//! American-style vanilla options under a Black–Scholes market model.
//!
//! Every quantity is a real number held in fixed-point form: an `i64`
//! counting units of `1 / fixed::SCALE`.  The integer representation keeps
//! the whole engine inside verified code: saturation, truncation and
//! division-by-zero behaviour are all stated exactly in the contracts.
//!
//! The crate has three layers:
//! - [`fixed`] and [`math`]: saturating fixed-point arithmetic and the
//!   elementary functions (square root, logarithm, exponential, standard
//!   normal CDF) the pricers need;
//! - [`european`] and [`american`]: the closed-form Black–Scholes pricer and
//!   the Crank–Nicolson / PSOR finite-difference solver for the American
//!   free-boundary problem;
//! - [`eep`]: the per-quote orchestrator that derives solver inputs and
//!   returns the clamped early-exercise premiums for the call and put side.

pub mod american;
pub mod eep;
pub mod european;
pub mod fixed;
pub mod math;
