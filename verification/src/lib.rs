//! Verified core of a quantitative-finance toolkit: walk-forward and purged
//! k-fold cross-validation, event concurrency, triple-barrier exit
//! resolution, long-only position transitions, strategy parameter checks and
//! classification tallies. Everything here works on integers, booleans and
//! enums; the floating-point numerics live in the companion application
//! crate.
pub mod text;
pub mod afml;
pub mod trading;
pub mod fraud;
pub mod loan;
pub mod risk;
pub mod common;
pub mod stocks;
