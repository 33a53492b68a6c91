//! Event concurrency, the basis of sample weights by uniqueness.
//!
//! When events overlap in time each one carries less unique information.
//! The number of events active at each bar is the integer core of the
//! uniqueness weights: an event's uniqueness is the mean, over its lifetime,
//! of the inverse of these counts.
use vstd::prelude::*;
use crate::afml::purged_kfold::EventSpan;

verus! {

/// Event `event` is active at bar `t`: `entry_index <= t <= exit_index`.
pub open spec fn active_at(event: EventSpan, t: int) -> bool {
    event.entry_index <= t <= event.exit_index
}

/// Number of the first `n` events that are active at bar `t`.
pub open spec fn active_count(events: Seq<EventSpan>, t: int, n: int) -> nat
    decreases n,
{
    if n <= 0 {
        0
    } else {
        active_count(events, t, n - 1) + if active_at(events[n - 1], t) { 1nat } else { 0nat }
    }
}

proof fn lemma_active_count_bounded(events: Seq<EventSpan>, t: int, n: int)
    requires
        0 <= n,
    ensures
        active_count(events, t, n) <= n,
    decreases n,
{
    if n > 0 {
        lemma_active_count_bounded(events, t, n - 1);
    }
}

proof fn lemma_active_count_filter(events: Seq<EventSpan>, t: int, n: int)
    requires
        0 <= n <= events.len(),
    ensures
        active_count(events, t, n) == events.subrange(0, n).filter(
            |ev: EventSpan| ev.entry_index <= t <= ev.exit_index,
        ).len(),
    decreases n,
{
    reveal(Seq::filter);
    if n > 0 {
        lemma_active_count_filter(events, t, n - 1);
        let sub = events.subrange(0, n);
        assert(sub.drop_last() =~= events.subrange(0, n - 1));
    } else {
        assert(events.subrange(0, n).len() == 0);
    }
}

/// The number of events active at each bar `t < n_bars`: the events whose
/// `[entry_index, exit_index]` interval contains `t`.
pub fn concurrent_events(events: &[EventSpan], n_bars: usize) -> (counts: Vec<usize>)
    ensures
        counts.len() == n_bars,
        forall|t: int| 0 <= t < n_bars ==> #[trigger] counts@[t] == active_count(events@, t, events@.len() as int),
        forall|t: int| 0 <= t < n_bars ==> #[trigger] counts@[t] <= events@.len(),
        forall|t: int|
            0 <= t < n_bars ==> #[trigger] counts@[t] == events@.filter(
                |ev: EventSpan| ev.entry_index <= t <= ev.exit_index,
            ).len(),
{
    let mut counts: Vec<usize> = Vec::new();
    while counts.len() < n_bars
        invariant
            counts.len() <= n_bars,
            forall|t: int| 0 <= t < counts.len() ==> #[trigger] counts@[t] == 0,
        decreases n_bars - counts.len(),
    {
        counts.push(0);
    }
    let mut i: usize = 0;
    while i < events.len()
        invariant
            i <= events.len(),
            counts.len() == n_bars,
            forall|t: int| 0 <= t < n_bars ==> #[trigger] counts@[t] == active_count(events@, t, i as int),
        decreases events.len() - i,
    {
        let ev = events[i];
        if ev.entry_index < n_bars {
            let end = if ev.exit_index < n_bars - 1 { ev.exit_index } else { n_bars - 1 };
            let mut t: usize = ev.entry_index;
            while t <= end
                invariant
                    i < events.len(),
                    ev == events@[i as int],
                    ev.entry_index < n_bars,
                    end < n_bars,
                    end == if ev.exit_index < n_bars - 1 { ev.exit_index as int } else { n_bars - 1 },
                    ev.entry_index <= t,
                    t <= end + 1 || t == ev.entry_index,
                    counts.len() == n_bars,
                    forall|u: int|
                        0 <= u < n_bars ==> #[trigger] counts@[u] == active_count(events@, u, i as int)
                            + if ev.entry_index <= u < t { 1nat } else { 0nat },
                decreases end + 1 - t,
            {
                proof {
                    lemma_active_count_bounded(events@, t as int, i as int);
                }
                let c = counts[t];
                counts.set(t, c + 1);
                t = t + 1;
            }
        }
        i = i + 1;
    }
    proof {
        assert forall|t: int| 0 <= t < n_bars implies #[trigger] counts@[t] <= events@.len() by {
            lemma_active_count_bounded(events@, t, events@.len() as int);
        }
        assert(events@.subrange(0, events@.len() as int) =~= events@);
        assert forall|t: int| 0 <= t < n_bars implies #[trigger] counts@[t] == events@.filter(
            |ev: EventSpan| ev.entry_index <= t <= ev.exit_index,
        ).len() by {
            lemma_active_count_filter(events@, t, events@.len() as int);
        }
    }
    counts
}

/// An event active at a bar inside the data is counted there: the count at
/// that bar is at least one.
pub proof fn lemma_active_event_counted(events: Seq<EventSpan>, t: int, i: int)
    requires
        0 <= i < events.len(),
        active_at(events[i], t),
    ensures
        active_count(events, t, events.len() as int) >= 1,
{
    lemma_active_count_monotone(events, t, i + 1, events.len() as int);
}

proof fn lemma_active_count_monotone(events: Seq<EventSpan>, t: int, a: int, b: int)
    requires
        0 <= a <= b,
    ensures
        active_count(events, t, a) <= active_count(events, t, b),
    decreases b - a,
{
    if a < b {
        lemma_active_count_monotone(events, t, a, b - 1);
    }
}

/// An event that overlaps no other event at a bar is the only one counted
/// there (its uniqueness at that bar is 1).
pub proof fn lemma_lone_event_counted_once(events: Seq<EventSpan>, t: int, i: int)
    requires
        0 <= i < events.len(),
        active_at(events[i], t),
        forall|j: int| 0 <= j < events.len() && j != i ==> !active_at(#[trigger] events[j], t),
    ensures
        active_count(events, t, events.len() as int) == 1,
{
    lemma_lone_prefix(events, t, i, events.len() as int);
}

proof fn lemma_lone_prefix(events: Seq<EventSpan>, t: int, i: int, n: int)
    requires
        0 <= i < events.len(),
        0 <= n <= events.len(),
        active_at(events[i], t),
        forall|j: int| 0 <= j < events.len() && j != i ==> !active_at(#[trigger] events[j], t),
    ensures
        active_count(events, t, n) == if i < n { 1nat } else { 0nat },
    decreases n,
{
    if n > 0 {
        lemma_lone_prefix(events, t, i, n - 1);
    }
}

} // verus!
