//! Event-based backtesting building blocks in the style of López de Prado:
//! walk-forward and purged k-fold cross-validation, event concurrency,
//! triple-barrier exit resolution and bet-sizer parameters.
pub mod error;
pub mod walk_forward;
pub mod purged_kfold;
pub mod weights;
pub mod triple_barrier;
pub mod backtest;
pub mod sizers;
