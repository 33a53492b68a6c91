//! Trading signals, position states and the long-only transition rule.
use vstd::prelude::*;

verus! {

/// A trading signal emitted by a strategy for a single bar.
#[derive(Debug, Clone, Copy, PartialEq, Eq, Structural)]
pub enum Signal {
    /// Enter a long position.
    Buy,
    /// Exit a long position (go flat).
    Sell,
    /// Do nothing this bar.
    Hold,
}

/// The position the engine currently holds.
#[derive(Debug, Clone, Copy, PartialEq, Eq, Structural)]
pub enum Position {
    /// Holding the asset.
    Long,
    /// Short selling the asset (never reached by the long-only rule).
    Short,
    /// No position.
    Flat,
}

/// What a signal does to the position.
#[derive(Debug, Clone, Copy, PartialEq, Eq, Structural)]
pub enum Transition {
    /// Open a long position (a buy from flat).
    Enter,
    /// Close the long position (a sell while long).
    Exit,
    /// No change: hold, buy while long, or sell while flat.
    Stay,
}

/// The transition the long-only rule makes on `signal` from `position`.
pub open spec fn transition_of(position: Position, signal: Signal) -> Transition {
    match (position, signal) {
        (Position::Flat, Signal::Buy) => Transition::Enter,
        (Position::Long, Signal::Sell) => Transition::Exit,
        _ => Transition::Stay,
    }
}

/// The position after `signal` from `position` under the long-only rule.
pub open spec fn next_position(position: Position, signal: Signal) -> Position {
    match transition_of(position, signal) {
        Transition::Enter => Position::Long,
        Transition::Exit => Position::Flat,
        Transition::Stay => position,
    }
}

impl Position {
    /// Returns true when the position is `Long` or `Short` (exposed to the
    /// market).
    pub fn is_exposed(self) -> (r: bool)
        ensures
            r == (self == Position::Long || self == Position::Short),
    {
        match self {
            Position::Long => true,
            Position::Short => true,
            Position::Flat => false,
        }
    }

    /// Returns true when the position is `Flat`.
    pub fn is_flat(self) -> (r: bool)
        ensures
            r == (self == Position::Flat),
    {
        match self {
            Position::Flat => true,
            _ => false,
        }
    }

    /// Apply a signal under the long-only rule: `Buy` from flat enters a
    /// long position, `Sell` from long exits to flat, and anything else
    /// leaves the position unchanged (no pyramiding, no shorting).
    pub fn apply(self, signal: Signal) -> (r: (Position, Transition))
        ensures
            r.0 == next_position(self, signal),
            r.1 == transition_of(self, signal),
            r.1 == Transition::Enter <==> self == Position::Flat && signal == Signal::Buy,
            r.1 == Transition::Exit <==> self == Position::Long && signal == Signal::Sell,
            r.0 == if r.1 == Transition::Enter {
                Position::Long
            } else if r.1 == Transition::Exit {
                Position::Flat
            } else {
                self
            },
    {
        match (self, signal) {
            (Position::Flat, Signal::Buy) => (Position::Long, Transition::Enter),
            (Position::Long, Signal::Sell) => (Position::Flat, Transition::Exit),
            _ => (self, Transition::Stay),
        }
    }
}

/// The position after applying `signals` in order from `start`.
pub open spec fn run_signals(start: Position, signals: Seq<Signal>) -> Position
    decreases signals.len(),
{
    if signals.len() == 0 {
        start
    } else {
        next_position(run_signals(start, signals.drop_last()), signals.last())
    }
}

/// Number of transitions of kind `kind` made while applying `signals` from
/// `start`.
pub open spec fn count_transitions(start: Position, signals: Seq<Signal>, kind: Transition) -> nat
    decreases signals.len(),
{
    if signals.len() == 0 {
        0
    } else {
        count_transitions(start, signals.drop_last(), kind) + if transition_of(
            run_signals(start, signals.drop_last()),
            signals.last(),
        ) == kind {
            1nat
        } else {
            0nat
        }
    }
}

/// Exactly one of `is_exposed` and `is_flat` holds of every position.
pub proof fn lemma_exposed_iff_not_flat(p: Position)
    ensures
        (p == Position::Long || p == Position::Short) <==> !(p == Position::Flat),
{
}

/// Long-only: from a flat position no sequence of signals ever reaches a
/// short position, and the trades alternate: every exit closes an earlier
/// entry, and an entry is left open exactly when the final position is long.
pub proof fn lemma_long_only_round_trips(signals: Seq<Signal>)
    ensures
        run_signals(Position::Flat, signals) != Position::Short,
        count_transitions(Position::Flat, signals, Transition::Enter) == count_transitions(
            Position::Flat,
            signals,
            Transition::Exit,
        ) + if run_signals(Position::Flat, signals) == Position::Long { 1nat } else { 0nat },
    decreases signals.len(),
{
    if signals.len() > 0 {
        lemma_long_only_round_trips(signals.drop_last());
    }
}

/// A long trade of the long-only rule: entered at bar `entry`, and closed
/// by a sell at bar `exit`, or still open after the last bar (`exit` is
/// `None`; the backtest then closes it at the last bar).
#[derive(Debug, Clone, Copy, PartialEq, Eq, Structural)]
pub struct RoundTrip {
    /// Bar of the entry.
    pub entry: usize,
    /// Bar of the closing sell, if there was one.
    pub exit: Option<usize>,
}

impl RoundTrip {
    /// The trip as integers.
    pub open spec fn as_pair(self) -> (int, Option<int>) {
        (
            self.entry as int,
            match self.exit {
                Some(x) => Some(x as int),
                None => None,
            },
        )
    }
}

/// The trades made while applying `signals` from a flat position, as
/// (entry bar, exit bar) pairs in order: an entry opens a trade, an exit
/// closes the open one.
pub open spec fn round_trips_of(signals: Seq<Signal>) -> Seq<(int, Option<int>)>
    decreases signals.len(),
{
    if signals.len() == 0 {
        Seq::empty()
    } else {
        let prev = round_trips_of(signals.drop_last());
        let i = signals.len() - 1;
        match transition_of(run_signals(Position::Flat, signals.drop_last()), signals.last()) {
            Transition::Enter => prev.push((i, None)),
            Transition::Exit => prev.update(prev.len() - 1, (prev.last().0, Some(i))),
            Transition::Stay => prev,
        }
    }
}

/// The trades of a signal sequence (see [`round_trips_of`]) are one per
/// entry; every trade but the last is closed, and the last is open exactly
/// when the final position is long, so the closed trades are one per exit.
/// Each trade enters on a buy and exits on a later sell, and the trades do
/// not overlap: each one closes before the next opens.
pub proof fn lemma_round_trips(signals: Seq<Signal>)
    ensures
        round_trips_of(signals).len() == count_transitions(Position::Flat, signals, Transition::Enter),
        (run_signals(Position::Flat, signals) == Position::Long) <==> (round_trips_of(signals).len() > 0
            && round_trips_of(signals).last().1 is None),
        forall|k: int| 0 <= k < round_trips_of(signals).len() - 1 ==> (#[trigger] round_trips_of(signals)[k]).1 is Some,
        count_transitions(Position::Flat, signals, Transition::Exit) == round_trips_of(signals).len() - if run_signals(
            Position::Flat,
            signals,
        ) == Position::Long {
            1int
        } else {
            0int
        },
        forall|k: int| 0 <= k < round_trips_of(signals).len() ==> {
            let t = #[trigger] round_trips_of(signals)[k];
            &&& 0 <= t.0 < signals.len()
            &&& signals[t.0] == Signal::Buy
            &&& (t.1 matches Some(x) ==> t.0 < x < signals.len() && signals[x] == Signal::Sell)
        },
        forall|k: int| 0 <= k < round_trips_of(signals).len() - 1 ==> (#[trigger] round_trips_of(signals)[k]).1.unwrap()
            < round_trips_of(signals)[k + 1].0,
    decreases signals.len(),
{
    lemma_long_only_round_trips(signals);
    if signals.len() > 0 {
        let prev_signals = signals.drop_last();
        lemma_round_trips(prev_signals);
        lemma_long_only_round_trips(prev_signals);
        let prev = round_trips_of(prev_signals);
        let trips = round_trips_of(signals);
        assert forall|k: int| 0 <= k < trips.len() implies {
            let t = #[trigger] trips[k];
            &&& 0 <= t.0 < signals.len()
            &&& signals[t.0] == Signal::Buy
            &&& (t.1 matches Some(x) ==> t.0 < x < signals.len() && signals[x] == Signal::Sell)
        } by {
            if k < prev.len() {
                let p = prev[k];
                assert(signals[p.0] == prev_signals[p.0]);
                if p.1 is Some {
                    assert(signals[p.1.unwrap()] == prev_signals[p.1.unwrap()]);
                }
            }
        }
        assert forall|k: int| 0 <= k < trips.len() - 1 implies (#[trigger] trips[k]).1.unwrap()
            < trips[k + 1].0 by {
            assert(prev[k].1.unwrap() < signals.len() - 1 || k + 1 >= prev.len());
        }
    }
}

/// The trades of `signals` from a flat position (see [`round_trips_of`]).
pub fn round_trips(signals: &Vec<Signal>) -> (r: Vec<RoundTrip>)
    ensures
        r@.len() == round_trips_of(signals@).len(),
        forall|k: int| 0 <= k < r@.len() ==> (#[trigger] r@[k]).as_pair() == round_trips_of(signals@)[k],
{
    let mut trips: Vec<RoundTrip> = Vec::new();
    let mut position = Position::Flat;
    let mut i: usize = 0;
    while i < signals.len()
        invariant
            i <= signals@.len(),
            position == run_signals(Position::Flat, signals@.subrange(0, i as int)),
            trips@.len() == round_trips_of(signals@.subrange(0, i as int)).len(),
            forall|k: int| 0 <= k < trips@.len() ==> (#[trigger] trips@[k]).as_pair()
                == round_trips_of(signals@.subrange(0, i as int))[k],
        decreases signals@.len() - i,
    {
        let ghost before = signals@.subrange(0, i as int);
        let ghost after = signals@.subrange(0, i + 1);
        assert(after.drop_last() =~= before);
        assert(after.last() == signals@[i as int]);
        proof {
            lemma_round_trips(before);
        }
        let (next, transition) = position.apply(signals[i]);
        match transition {
            Transition::Enter => {
                trips.push(RoundTrip { entry: i, exit: None });
            },
            Transition::Exit => {
                let last = trips.len() - 1;
                let entry = trips[last].entry;
                trips.set(last, RoundTrip { entry, exit: Some(i) });
            },
            Transition::Stay => {},
        }
        position = next;
        i = i + 1;
        assert forall|k: int| 0 <= k < trips@.len() implies (#[trigger] trips@[k]).as_pair()
            == round_trips_of(after)[k] by {
        }
    }
    assert(signals@.subrange(0, signals@.len() as int) =~= signals@);
    trips
}

} // verus!
