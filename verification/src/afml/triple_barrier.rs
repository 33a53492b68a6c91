//! Triple-barrier labeling: exit resolution.
//!
//! For each entry point three barriers are placed around the entry price: an
//! upper (profit-taking) barrier, a lower (stop-loss) barrier and a time
//! barrier (maximum holding period in bars). The first barrier touched
//! determines the label; if neither horizontal barrier is touched before the
//! time barrier, the time barrier labels the event.
//!
//! Which horizontal barrier, if any, the price touches at a bar is decided
//! by comparing prices; the resolution of the exit from those touches is
//! done here.
use vstd::prelude::*;
use crate::afml::error::BacktestError;
use crate::text::{decimal, push_decimal};

verus! {

/// Triple-barrier label.
#[derive(Debug, Clone, Copy, PartialEq, Eq)]
pub enum TripleBarrierLabel {
    /// Upper barrier hit first (profit-taking).
    Upper,
    /// Lower barrier hit first (stop-loss).
    Lower,
    /// Time barrier hit (timeout).
    Time,
}

/// What the price at one bar does relative to an event's horizontal
/// barriers. The upper barrier is checked first.
#[derive(Debug, Clone, Copy, PartialEq, Eq)]
pub enum BarrierTouch {
    /// The price is at or above the upper barrier.
    Upper,
    /// The price is at or below the lower barrier (and below the upper one).
    Lower,
    /// The price is strictly between the barriers.
    Inside,
}

/// Where and why an event is left.
#[derive(Debug, Clone, Copy, PartialEq, Eq)]
pub struct BarrierExit {
    pub exit_index: usize,
    pub label: TripleBarrierLabel,
    pub holding_period: usize,
}

/// The last bar an event entered at `entry` may be held to: `span` bars
/// later, or the last bar of the data if that comes first.
pub open spec fn horizon(entry: int, span: int, n_bars: int) -> int {
    if entry + span <= n_bars - 1 { entry + span } else { n_bars - 1 }
}

/// The label given by a touch.
pub open spec fn touch_label(touch: BarrierTouch) -> TripleBarrierLabel {
    match touch {
        BarrierTouch::Upper => TripleBarrierLabel::Upper,
        BarrierTouch::Lower => TripleBarrierLabel::Lower,
        BarrierTouch::Inside => TripleBarrierLabel::Time,
    }
}

/// `exit` is the triple-barrier exit of an event entered at `entry`: the
/// first bar after the entry, up to the time barrier, where a horizontal
/// barrier is touched; otherwise the time barrier itself.
pub open spec fn is_barrier_exit(
    touches: Seq<BarrierTouch>,
    entry: int,
    time_barrier: int,
    exit: BarrierExit,
) -> bool {
    let last = horizon(entry, time_barrier, touches.len() as int);
    &&& exit.holding_period == exit.exit_index - entry
    &&& entry <= exit.exit_index <= last
    &&& forall|t: int| entry < t < exit.exit_index ==> touches[t] == BarrierTouch::Inside
    &&& exit.label == TripleBarrierLabel::Time ==> {
        &&& exit.exit_index == last
        &&& last > entry ==> touches[last] == BarrierTouch::Inside
    }
    &&& exit.label != TripleBarrierLabel::Time ==> {
        &&& entry < exit.exit_index
        &&& exit.label == touch_label(touches[exit.exit_index as int])
    }
}

/// The last bar reachable from `entry` within `span` bars in data of
/// `n_bars` bars (`entry < n_bars`).
pub fn barrier_horizon(entry: usize, span: usize, n_bars: usize) -> (r: usize)
    requires
        entry < n_bars,
    ensures
        r == horizon(entry as int, span as int, n_bars as int),
        entry <= r < n_bars,
        r <= entry + span,
        r == entry + span || r == n_bars - 1,
{
    if span <= n_bars - 1 - entry {
        entry + span
    } else {
        n_bars - 1
    }
}

/// Resolve the exit of an event entered at `entry_index` from the barrier
/// touches of every bar of the data: the first touch strictly after the
/// entry and no later than the time barrier wins; without one the event
/// leaves at the time barrier with the `Time` label.
pub fn first_barrier_exit(touches: &[BarrierTouch], entry_index: usize, time_barrier: usize) -> (r:
    BarrierExit)
    requires
        entry_index < touches.len(),
    ensures
        is_barrier_exit(touches@, entry_index as int, time_barrier as int, r),
        entry_index <= r.exit_index < touches@.len(),
        r.exit_index <= entry_index + time_barrier,
        r.holding_period == r.exit_index - entry_index,
        forall|t: int| entry_index < t < r.exit_index ==> touches@[t] == BarrierTouch::Inside,
        r.label == TripleBarrierLabel::Upper <==> r.exit_index > entry_index
            && touches@[r.exit_index as int] == BarrierTouch::Upper,
        r.label == TripleBarrierLabel::Lower <==> r.exit_index > entry_index
            && touches@[r.exit_index as int] == BarrierTouch::Lower,
        r.label == TripleBarrierLabel::Time ==> (r.exit_index == entry_index + time_barrier
            || r.exit_index == touches@.len() - 1),
{
    let last = barrier_horizon(entry_index, time_barrier, touches.len());
    let mut t: usize = entry_index + 1;
    while t <= last
        invariant
            last == horizon(entry_index as int, time_barrier as int, touches.len() as int),
            entry_index <= last < touches.len(),
            entry_index < t <= last + 1,
            forall|u: int| entry_index < u < t ==> touches@[u] == BarrierTouch::Inside,
        decreases last + 1 - t,
    {
        match touches[t] {
            BarrierTouch::Upper => {
                return BarrierExit {
                    exit_index: t,
                    label: TripleBarrierLabel::Upper,
                    holding_period: t - entry_index,
                };
            },
            BarrierTouch::Lower => {
                return BarrierExit {
                    exit_index: t,
                    label: TripleBarrierLabel::Lower,
                    holding_period: t - entry_index,
                };
            },
            BarrierTouch::Inside => {},
        }
        t = t + 1;
    }
    BarrierExit { exit_index: last, label: TripleBarrierLabel::Time, holding_period: last - entry_index }
}

impl TripleBarrierLabel {
    /// Ternary label: `Upper` is 1, `Time` is 0, `Lower` is -1.
    pub open spec fn ternary(self) -> i8 {
        match self {
            TripleBarrierLabel::Upper => 1i8,
            TripleBarrierLabel::Time => 0i8,
            TripleBarrierLabel::Lower => -1i8,
        }
    }

    /// Convert to the ternary label: `Upper` -> 1, `Time` -> 0, `Lower` -> -1.
    pub fn to_ternary(self) -> (r: i8)
        ensures
            r == self.ternary(),
    {
        match self {
            TripleBarrierLabel::Upper => 1,
            TripleBarrierLabel::Time => 0,
            TripleBarrierLabel::Lower => -1,
        }
    }

    /// Convert to a binary outcome: `Upper` -> 1, `Lower` -> 0, and `Time` ->
    /// 1 exactly when the event's return reached the minimum return
    /// (`time_return_reaches_min`).
    pub fn to_binary(self, time_return_reaches_min: bool) -> (r: i32)
        ensures
            r == match self {
                TripleBarrierLabel::Upper => 1i32,
                TripleBarrierLabel::Lower => 0i32,
                TripleBarrierLabel::Time => if time_return_reaches_min { 1i32 } else { 0i32 },
            },
    {
        match self {
            TripleBarrierLabel::Upper => 1,
            TripleBarrierLabel::Lower => 0,
            TripleBarrierLabel::Time => if time_return_reaches_min { 1 } else { 0 },
        }
    }
}

/// First touch wins: a barrier exit is unique, so the label of an event is
/// the one of the first barrier touched after its entry, and the event is
/// held at most up to its time barrier.
pub proof fn lemma_barrier_exit_unique(
    touches: Seq<BarrierTouch>,
    entry: int,
    time_barrier: int,
    a: BarrierExit,
    b: BarrierExit,
)
    requires
        0 <= entry < touches.len(),
        0 <= time_barrier,
        is_barrier_exit(touches, entry, time_barrier, a),
        is_barrier_exit(touches, entry, time_barrier, b),
    ensures
        a == b,
        a.exit_index <= entry + time_barrier,
{
    if a.exit_index < b.exit_index {
        assert(touches[a.exit_index as int] == BarrierTouch::Inside);
    } else if b.exit_index < a.exit_index {
        assert(touches[b.exit_index as int] == BarrierTouch::Inside);
    }
}

/// The message for an entry index that is not a bar of the prices, with
/// the number of prices when `n_prices` is given.
pub open spec fn out_of_bounds_text(entry: nat, n_prices: Option<nat>) -> Seq<char> {
    "entry index "@ + decimal(entry) + " out of bounds"@ + match n_prices {
        Some(n) => " (prices len "@ + decimal(n) + ")"@,
        None => Seq::empty(),
    }
}

/// The message for an entry whose price is not positive.
pub open spec fn nonpositive_price_text(entry: nat) -> Seq<char> {
    "entry price at index "@ + decimal(entry) + " must be positive"@
}

/// A labeler needs at least one price.
pub fn check_prices(n_prices: usize) -> (r: Result<(), BacktestError>)
    ensures
        r is Ok <==> n_prices > 0,
        r matches Err(e) ==> (e matches BacktestError::InsufficientData(m) && m@
            == "prices cannot be empty"@),
{
    if n_prices == 0 {
        Err(BacktestError::InsufficientData("prices cannot be empty".to_string()))
    } else {
        Ok(())
    }
}

/// An entry must be a bar of the prices; the error names the entry and,
/// when `report_len` is set, the number of prices.
pub fn check_entry(entry: usize, n_prices: usize, report_len: bool) -> (r: Result<(), BacktestError>)
    ensures
        r is Ok <==> entry < n_prices,
        r matches Err(e) ==> (e matches BacktestError::InvalidEvent(m) && m@ == out_of_bounds_text(
            entry as nat,
            if report_len { Some(n_prices as nat) } else { None },
        )),
{
    if entry < n_prices {
        return Ok(());
    }
    let mut m = String::new();
    m.push_str("entry index ");
    push_decimal(&mut m, entry as u128);
    m.push_str(" out of bounds");
    if report_len {
        m.push_str(" (prices len ");
        push_decimal(&mut m, n_prices as u128);
        m.push_str(")");
    }
    Err(BacktestError::InvalidEvent(m))
}

/// The error for an entry whose price is not positive.
pub fn nonpositive_entry_price(entry: usize) -> (e: BacktestError)
    ensures
        e matches BacktestError::InvalidEvent(m) && m@ == nonpositive_price_text(entry as nat),
{
    let mut m = String::new();
    m.push_str("entry price at index ");
    push_decimal(&mut m, entry as u128);
    m.push_str(" must be positive");
    BacktestError::InvalidEvent(m)
}

} // verus!
