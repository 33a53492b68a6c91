//! Reference strategies: SMA crossover and buy-and-hold.
//!
//! A strategy maps the price history seen so far to one signal for the
//! current bar. The moving averages themselves are computed from prices;
//! what is decided here is when there is enough history, which bars a
//! moving average covers, and which signal a crossing gives.
use vstd::prelude::*;
use crate::text::{decimal, push_decimal};
use crate::trading::error::BacktestError;
use crate::trading::signal::Signal;

verus! {

/// Where the short moving average stands relative to the long one.
#[derive(Debug, Clone, Copy, PartialEq, Eq, Structural)]
pub enum SmaRelation {
    /// Short average strictly below the long one.
    Below,
    /// Both averages equal.
    Equal,
    /// Short average strictly above the long one.
    Above,
    /// The averages cannot be compared (a value is not a number).
    Unordered,
}

/// Simple Moving Average crossover strategy: buy when the short SMA crosses
/// above the long SMA ("golden cross"), sell when it crosses below ("death
/// cross"), otherwise hold.
#[derive(Debug, Clone, Copy)]
pub struct SmaCrossover {
    short_period: usize,
    long_period: usize,
}

/// Message of the rejection of periods that are not increasing.
pub open spec fn period_order_message(short_period: nat, long_period: nat) -> Seq<char> {
    "short_period ("@ + decimal(short_period) + ") must be strictly less than long_period ("@
        + decimal(long_period) + ")"@
}

/// The signal a crossover gives at bar `index` of a strategy whose long
/// period is `long_period`, from the relation of the averages at the
/// previous bar and at this one.
pub open spec fn crossover(index: int, long_period: int, prev: SmaRelation, now: SmaRelation) -> Signal {
    if index < long_period {
        Signal::Hold
    } else if (prev == SmaRelation::Below || prev == SmaRelation::Equal) && now == SmaRelation::Above {
        Signal::Buy
    } else if (prev == SmaRelation::Above || prev == SmaRelation::Equal) && now == SmaRelation::Below {
        Signal::Sell
    } else {
        Signal::Hold
    }
}

/// First bar of the `period`-bar window that ends at `index`, when there is
/// enough history for it.
pub open spec fn window_start(index: int, period: int) -> Option<int> {
    if index + 1 < period {
        None
    } else {
        Some(index + 1 - period)
    }
}

/// First bar of the `period`-bar window ending at bar `index`, or `None` if
/// fewer than `period` bars have been seen.
pub fn sma_window_start(index: usize, period: usize) -> (r: Option<usize>)
    requires
        period > 0,
    ensures
        match window_start(index as int, period as int) {
            Some(s) => r == Some(s as usize),
            None => r is None,
        },
        r is None <==> index + 1 < period,
        r matches Some(s) ==> s + period == index + 1,
{
    if index < period - 1 {
        None
    } else {
        Some(index - (period - 1))
    }
}

impl SmaCrossover {
    #[verifier::type_invariant]
    spec fn periods_increasing(self) -> bool {
        0 < self.short_period < self.long_period
    }

    /// The short moving-average period.
    pub closed spec fn short(&self) -> usize {
        self.short_period
    }

    /// The long moving-average period.
    pub closed spec fn long(&self) -> usize {
        self.long_period
    }

    /// Create a new SMA crossover strategy. Both periods must be at least 1
    /// and the short one strictly less than the long one.
    pub fn new(short_period: usize, long_period: usize) -> (r: Result<Self, BacktestError>)
        ensures
            r is Ok <==> 0 < short_period < long_period,
            r matches Ok(s) ==> s.short() == short_period && s.long() == long_period,
            short_period == 0 || long_period == 0 ==> (r matches Err(
                BacktestError::InvalidParams(m),
            ) && m@ == "periods must be at least 1"@),
            short_period > 0 && long_period > 0 && short_period >= long_period ==> (r matches Err(
                BacktestError::InvalidParams(m),
            ) && m@ == period_order_message(short_period as nat, long_period as nat)),
    {
        if short_period == 0 || long_period == 0 {
            return Err(BacktestError::InvalidParams("periods must be at least 1".to_string()));
        }
        if short_period >= long_period {
            let mut m = String::new();
            m.push_str("short_period (");
            push_decimal(&mut m, short_period as u128);
            m.push_str(") must be strictly less than long_period (");
            push_decimal(&mut m, long_period as u128);
            m.push_str(")");
            return Err(BacktestError::InvalidParams(m));
        }
        Ok(SmaCrossover { short_period, long_period })
    }

    /// The short moving average period.
    pub fn short_period(&self) -> (r: usize)
        ensures
            r == self.short(),
            0 < r < self.long(),
    {
        proof {
            use_type_invariant(self);
        }
        self.short_period
    }

    /// The long moving average period.
    pub fn long_period(&self) -> (r: usize)
        ensures
            r == self.long(),
            r > self.short() > 0,
    {
        proof {
            use_type_invariant(self);
        }
        self.long_period
    }

    /// Human-readable strategy name for reporting.
    pub fn name(&self) -> (r: &'static str)
        ensures
            r@ == "SMA Crossover"@,
    {
        "SMA Crossover"
    }

    /// The signal at bar `index`, given how the short average compares to
    /// the long one at the previous bar (`prev`) and at this bar (`now`).
    /// Before `long_period` bars of history there are not two averages to
    /// compare and the strategy holds.
    pub fn crossover_signal(&self, index: usize, prev: SmaRelation, now: SmaRelation) -> (r: Signal)
        ensures
            r == crossover(index as int, self.long() as int, prev, now),
            index < self.long() ==> r == Signal::Hold,
            index >= self.long() && (prev == SmaRelation::Below || prev == SmaRelation::Equal) && now
                == SmaRelation::Above ==> r == Signal::Buy,
            index >= self.long() && (prev == SmaRelation::Above || prev == SmaRelation::Equal) && now
                == SmaRelation::Below ==> r == Signal::Sell,
            r == Signal::Buy ==> index >= self.long() && prev != SmaRelation::Above && prev
                != SmaRelation::Unordered && now == SmaRelation::Above,
            r == Signal::Sell ==> index >= self.long() && prev != SmaRelation::Below && prev
                != SmaRelation::Unordered && now == SmaRelation::Below,
    {
        if index < self.long_period {
            return Signal::Hold;
        }
        let crossed_up = (prev == SmaRelation::Below || prev == SmaRelation::Equal) && now
            == SmaRelation::Above;
        let crossed_down = (prev == SmaRelation::Above || prev == SmaRelation::Equal) && now
            == SmaRelation::Below;
        if crossed_up {
            Signal::Buy
        } else if crossed_down {
            Signal::Sell
        } else {
            Signal::Hold
        }
    }
}

/// Crossing rules: once there is enough history, a buy is given exactly
/// when the short average ends strictly above the long one after being
/// below or equal to it, a sell exactly in the mirror image; before that
/// the strategy holds;
/// with no change in the relation the strategy holds. Once there is enough
/// history both averages have their full windows, at the previous bar too.
pub proof fn lemma_crossover_rules(
    index: int,
    short_period: int,
    long_period: int,
    prev: SmaRelation,
    now: SmaRelation,
)
    requires
        0 < short_period < long_period,
    ensures
        crossover(index, long_period, prev, now) == Signal::Buy ==> now == SmaRelation::Above && prev
            != SmaRelation::Above && prev != SmaRelation::Unordered && index >= long_period,
        crossover(index, long_period, prev, now) == Signal::Sell ==> now == SmaRelation::Below && prev
            != SmaRelation::Below && prev != SmaRelation::Unordered && index >= long_period,
        prev == now ==> crossover(index, long_period, prev, now) == Signal::Hold,
        index < long_period ==> crossover(index, long_period, prev, now) == Signal::Hold,
        index >= long_period && prev != SmaRelation::Above && prev != SmaRelation::Unordered && now
            == SmaRelation::Above ==> crossover(index, long_period, prev, now) == Signal::Buy,
        index >= long_period && prev != SmaRelation::Below && prev != SmaRelation::Unordered && now
            == SmaRelation::Below ==> crossover(index, long_period, prev, now) == Signal::Sell,
        index >= long_period ==> window_start(index, short_period) is Some && window_start(
            index,
            long_period,
        ) is Some && window_start(index - 1, short_period) is Some && window_start(
            index - 1,
            long_period,
        ) is Some,
{
}

/// Passive benchmark: buy on the first bar, hold forever.
#[derive(Debug, Clone, Copy, Default)]
pub struct BuyAndHold;

impl BuyAndHold {
    /// The signal at bar `index`: buy on the first bar, hold afterwards.
    pub fn signal_at(&self, index: usize) -> (r: Signal)
        ensures
            r == if index == 0 { Signal::Buy } else { Signal::Hold },
    {
        if index == 0 {
            Signal::Buy
        } else {
            Signal::Hold
        }
    }

    /// Human-readable strategy name for reporting.
    pub fn name(&self) -> (r: &'static str)
        ensures
            r@ == "Buy and Hold"@,
    {
        "Buy and Hold"
    }
}

} // verus!
