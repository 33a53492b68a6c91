//! Signal-driven backtesting of long-only strategies: signals, positions and
//! their transitions, strategy parameters and crossover decisions.
pub mod error;
pub mod signal;
pub mod strategy;
