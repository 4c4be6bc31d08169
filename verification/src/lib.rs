//! Trading signals and vault decisions for prediction markets.
//!
//! Amounts, prices and probabilities are binary64 numbers. The library holds
//! such a number as a [`base::scalar::Scalar`], which keeps its place in the
//! numeric order: it compares, selects, sorts, bounds and stores numbers, and
//! takes the sums and products that a decision rests on from its caller.
pub mod base;
pub mod models;
pub mod signals;
pub mod vault;
