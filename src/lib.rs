//! Price-series signals and per-symbol statistics for a stock tracker.
//!
//! Prices are fixed-point integers (`i64` counts of the smallest price unit
//! the caller chose); quotients that the signals produce are kept exact as
//! [`signals::Fraction`] values.
pub mod signals;
pub mod history;
pub mod stats;
pub mod symbols;
