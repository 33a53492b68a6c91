//! Errors of the event-based backtesting framework.
use vstd::prelude::*;
use crate::text::concat;

verus! {

/// Backtest error.
#[derive(Debug)]
pub enum BacktestError {
    InvalidConfig(String),
    InsufficientData(String),
    DimensionMismatch(String),
    InvalidEvent(String),
    InvalidInput(String),
}

impl BacktestError {
    /// The human-readable form of the error: a fixed prefix per kind
    /// followed by the detail message.
    pub open spec fn message(&self) -> Seq<char> {
        match self {
            BacktestError::InvalidConfig(m) => "invalid config: "@ + m@,
            BacktestError::InsufficientData(m) => "insufficient data: "@ + m@,
            BacktestError::DimensionMismatch(m) => "dimension mismatch: "@ + m@,
            BacktestError::InvalidEvent(m) => "invalid event: "@ + m@,
            BacktestError::InvalidInput(m) => "invalid input: "@ + m@,
        }
    }

    /// Renders the error as text (see [`BacktestError::message`]).
    pub fn to_string(&self) -> (r: String)
        ensures
            r@ == self.message(),
    {
        match self {
            BacktestError::InvalidConfig(m) => concat("invalid config: ", m.as_str()),
            BacktestError::InsufficientData(m) => concat("insufficient data: ", m.as_str()),
            BacktestError::DimensionMismatch(m) => concat("dimension mismatch: ", m.as_str()),
            BacktestError::InvalidEvent(m) => concat("invalid event: ", m.as_str()),
            BacktestError::InvalidInput(m) => concat("invalid input: ", m.as_str()),
        }
    }
}

} // verus!
