//! Error type of the strategy backtester.
use vstd::prelude::*;
use crate::text::{decimal, push_decimal};

verus! {

/// Errors that can occur while building or running a backtest.
#[derive(Debug)]
pub enum BacktestError {
    /// Strategy parameters are invalid (e.g. short period >= long period).
    InvalidParams(String),
    /// Not enough bars to run the strategy.
    InsufficientData {
        /// Minimum number of bars the strategy needs.
        required: usize,
        /// Number of bars actually supplied.
        actual: usize,
    },
    /// Backtest configuration is invalid (e.g. negative capital).
    InvalidConfig(String),
}

impl BacktestError {
    /// The human-readable form of the error.
    pub open spec fn message(&self) -> Seq<char> {
        match self {
            BacktestError::InvalidParams(m) => "Invalid strategy parameters: "@ + m@,
            BacktestError::InsufficientData { required, actual } => "Insufficient data: need at least "@
                + decimal(*required as nat) + " bars, got "@ + decimal(*actual as nat),
            BacktestError::InvalidConfig(m) => "Invalid configuration: "@ + m@,
        }
    }

    /// Renders the error as text (see [`BacktestError::message`]).
    pub fn to_string(&self) -> (r: String)
        ensures
            r@ == self.message(),
    {
        let mut s = String::new();
        match self {
            BacktestError::InvalidParams(m) => {
                s.push_str("Invalid strategy parameters: ");
                s.push_str(m.as_str());
            },
            BacktestError::InsufficientData { required, actual } => {
                s.push_str("Insufficient data: need at least ");
                push_decimal(&mut s, *required as u128);
                s.push_str(" bars, got ");
                push_decimal(&mut s, *actual as u128);
            },
            BacktestError::InvalidConfig(m) => {
                s.push_str("Invalid configuration: ");
                s.push_str(m.as_str());
            },
        }
        s
    }
}

} // verus!
