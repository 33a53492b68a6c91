//! Purged k-fold cross-validation.
//!
//! Standard k-fold CV leaks information when samples overlap in time: a test
//! fold containing bars `[t1, t2)` may share information with training
//! samples whose events span the test boundary. Purging removes training
//! samples whose `[entry, exit]` interval overlaps the test period. The
//! embargo additionally removes training samples whose entry falls within
//! `[t2, t2 + embargo)` to handle autocorrelation.
use vstd::prelude::*;

verus! {

/// The bar span of a labeled event: it is entered at `entry_index` and left
/// at `exit_index`.
#[derive(Debug, Clone, Copy, PartialEq, Eq)]
pub struct EventSpan {
    pub entry_index: usize,
    pub exit_index: usize,
}

/// Purged k-fold split configuration.
#[derive(Debug, Clone)]
pub struct PurgedKFoldConfig {
    /// Number of folds.
    pub n_folds: usize,
    /// Embargo period after the test set (in bars).
    pub embargo: usize,
}

/// A single train/test split with purging.
#[derive(Debug, Clone)]
pub struct PurgedSplit {
    pub train_indices: Vec<usize>,
    pub test_indices: Vec<usize>,
    pub purged_count: usize,
    pub embargoed_count: usize,
}

/// The role of an event in one fold.
#[derive(Debug, Clone, Copy, PartialEq, Eq)]
pub enum EventRole {
    /// The event is entered during the test period.
    Test,
    /// The event overlaps the test period without being entered in it.
    Purged,
    /// The event is entered during the embargo that follows the test period.
    Embargoed,
    /// The event is kept for training.
    Train,
}

/// The event overlaps the half-open bar range `[start, end)`:
/// `entry < end` and `exit > start`.
pub open spec fn overlaps(event: EventSpan, start: int, end: int) -> bool {
    event.entry_index < end && event.exit_index > start
}

/// Number of bars per fold (the last fold also takes the remainder).
pub open spec fn fold_size(n_bars: int, n_folds: int) -> int {
    n_bars / n_folds
}

/// First bar of the test period of fold `k`.
pub open spec fn fold_start(n_bars: int, n_folds: int, k: int) -> int {
    k * fold_size(n_bars, n_folds)
}

/// One past the last bar of the test period of fold `k`.
pub open spec fn fold_end(n_bars: int, n_folds: int, k: int) -> int {
    if k == n_folds - 1 {
        n_bars
    } else {
        (k + 1) * fold_size(n_bars, n_folds)
    }
}

/// One past the last bar of the embargo after fold `k`, clamped to the data.
pub open spec fn embargo_end(n_bars: int, n_folds: int, embargo: int, k: int) -> int {
    let e = fold_end(n_bars, n_folds, k) + embargo;
    if e <= n_bars { e } else { n_bars }
}

/// The role of an event for a test period `[start, end)` followed by an
/// embargo ending at `emb_end`. Test membership is checked first, then
/// purging, then the embargo.
pub open spec fn role_of(event: EventSpan, start: int, end: int, emb_end: int) -> EventRole {
    if start <= event.entry_index && event.entry_index < end {
        EventRole::Test
    } else if overlaps(event, start, end) {
        EventRole::Purged
    } else if end <= event.entry_index && event.entry_index < emb_end {
        EventRole::Embargoed
    } else {
        EventRole::Train
    }
}

/// The indices `i < n`, in increasing order, of the events that play `role`.
pub open spec fn members(
    events: Seq<EventSpan>,
    start: int,
    end: int,
    emb_end: int,
    role: EventRole,
    n: int,
) -> Seq<usize>
    decreases n,
{
    if n <= 0 {
        seq![]
    } else {
        let prev = members(events, start, end, emb_end, role, n - 1);
        if role_of(events[n - 1], start, end, emb_end) == role {
            prev.push((n - 1) as usize)
        } else {
            prev
        }
    }
}

/// `split` is fold `k` of `events` over `n_bars` bars under `config`.
pub open spec fn is_fold(
    events: Seq<EventSpan>,
    n_bars: int,
    config: PurgedKFoldConfig,
    k: int,
    split: PurgedSplit,
) -> bool {
    let start = fold_start(n_bars, config.n_folds as int, k);
    let end = fold_end(n_bars, config.n_folds as int, k);
    let emb = embargo_end(n_bars, config.n_folds as int, config.embargo as int, k);
    let n = events.len() as int;
    &&& split.test_indices@ == members(events, start, end, emb, EventRole::Test, n)
    &&& split.train_indices@ == members(events, start, end, emb, EventRole::Train, n)
    &&& split.purged_count == members(events, start, end, emb, EventRole::Purged, n).len()
    &&& split.embargoed_count == members(events, start, end, emb, EventRole::Embargoed, n).len()
}

/// Check whether an event overlaps the half-open time range `[start, end)`.
pub fn event_overlaps(event: &EventSpan, start: usize, end: usize) -> (r: bool)
    ensures
        r == overlaps(*event, start as int, end as int),
{
    event.entry_index < end && event.exit_index > start
}

/// The role of `event` for the test period `[start, end)` and the embargo
/// ending at `emb_end`.
pub fn event_role(event: &EventSpan, start: usize, end: usize, emb_end: usize) -> (r: EventRole)
    ensures
        r == role_of(*event, start as int, end as int, emb_end as int),
        r == EventRole::Test <==> start <= event.entry_index < end,
        r == EventRole::Purged <==> !(start <= event.entry_index < end) && event.entry_index < end
            && event.exit_index > start,
        r == EventRole::Embargoed <==> !(start <= event.entry_index < end) && !(event.entry_index
            < end && event.exit_index > start) && end <= event.entry_index < emb_end,
        r == EventRole::Train <==> !(start <= event.entry_index < end) && !(event.entry_index < end
            && event.exit_index > start) && !(end <= event.entry_index < emb_end),
{
    if event.entry_index >= start && event.entry_index < end {
        EventRole::Test
    } else if event_overlaps(event, start, end) {
        EventRole::Purged
    } else if event.entry_index >= end && event.entry_index < emb_end {
        EventRole::Embargoed
    } else {
        EventRole::Train
    }
}

proof fn lemma_members_len(
    events: Seq<EventSpan>,
    start: int,
    end: int,
    emb_end: int,
    role: EventRole,
    n: int,
)
    requires
        0 <= n,
    ensures
        members(events, start, end, emb_end, role, n).len() <= n,
    decreases n,
{
    if n > 0 {
        lemma_members_len(events, start, end, emb_end, role, n - 1);
    }
}

/// Fold bounds are ordered and lie in the data.
proof fn lemma_fold_bounds(n_bars: int, n_folds: int, k: int)
    requires
        n_bars >= 0,
        n_folds > 0,
        0 <= k < n_folds,
    ensures
        0 <= fold_start(n_bars, n_folds, k) <= fold_end(n_bars, n_folds, k) <= n_bars,
        fold_size(n_bars, n_folds) >= 0,
        (k + 1) * fold_size(n_bars, n_folds) <= n_bars,
        fold_start(n_bars, n_folds, k) + fold_size(n_bars, n_folds) == (k + 1) * fold_size(
            n_bars,
            n_folds,
        ),
{
    let fs = fold_size(n_bars, n_folds);
    vstd::arithmetic::div_mod::lemma_fundamental_div_mod(n_bars, n_folds);
    assert(fs >= 0) by (nonlinear_arith)
        requires
            fs == n_bars / n_folds,
            n_bars >= 0,
            n_folds > 0,
    ;
    assert(fs * n_folds <= n_bars) by (nonlinear_arith)
        requires
            n_bars == n_folds * fs + n_bars % n_folds,
            n_bars % n_folds >= 0,
    ;
    assert((k + 1) * fs <= n_folds * fs) by (nonlinear_arith)
        requires
            k + 1 <= n_folds,
            fs >= 0,
    ;
    assert(k * fs + fs == (k + 1) * fs) by (nonlinear_arith);
    assert(0 <= k * fs) by (nonlinear_arith)
        requires
            k >= 0,
            fs >= 0,
    ;
}

/// Generate purged k-fold splits for events over the bars `[0, n_bars)`.
///
/// The bars are split into `n_folds` contiguous test periods of
/// `n_bars / n_folds` bars, the last one taking the remainder. For each fold
/// the events entered in the test period form the test set; of the others,
/// those overlapping the test period are purged, those entered within the
/// embargo after it are embargoed, and the rest form the training set.
pub fn purged_kfold_splits(
    events: &[EventSpan],
    n_bars: usize,
    config: &PurgedKFoldConfig,
) -> (r: Vec<PurgedSplit>)
    requires
        config.n_folds > 0,
    ensures
        r.len() == config.n_folds,
        forall|k: int| 0 <= k < r.len() ==> #[trigger] is_fold(events@, n_bars as int, *config, k, r@[k]),
{
    let n_folds = config.n_folds;
    let fold_size = n_bars / n_folds;
    let mut splits: Vec<PurgedSplit> = Vec::new();
    let mut k: usize = 0;
    let mut t_start: usize = 0;
    while k < n_folds
        invariant
            n_folds == config.n_folds,
            n_folds > 0,
            fold_size == self::fold_size(n_bars as int, n_folds as int),
            k <= n_folds,
            k < n_folds ==> t_start == fold_start(n_bars as int, n_folds as int, k as int),
            splits.len() == k,
            forall|j: int| 0 <= j < k ==> #[trigger] is_fold(events@, n_bars as int, *config, j, splits@[j]),
        decreases n_folds - k,
    {
        proof {
            lemma_fold_bounds(n_bars as int, n_folds as int, k as int);
        }
        let t_end = if k == n_folds - 1 { n_bars } else { t_start + fold_size };
        let emb_end = if config.embargo >= n_bars - t_end { n_bars } else { t_end + config.embargo };
        assert(t_end == fold_end(n_bars as int, n_folds as int, k as int));
        assert(emb_end == embargo_end(n_bars as int, n_folds as int, config.embargo as int, k as int));
        let ghost s = t_start as int;
        let ghost e = t_end as int;
        let ghost m = emb_end as int;
        let mut train: Vec<usize> = Vec::new();
        let mut test: Vec<usize> = Vec::new();
        let mut purged: usize = 0;
        let mut embargoed: usize = 0;
        let mut i: usize = 0;
        while i < events.len()
            invariant
                i <= events.len(),
                s == t_start as int,
                e == t_end as int,
                m == emb_end as int,
                test@ == members(events@, s, e, m, EventRole::Test, i as int),
                train@ == members(events@, s, e, m, EventRole::Train, i as int),
                purged == members(events@, s, e, m, EventRole::Purged, i as int).len(),
                embargoed == members(events@, s, e, m, EventRole::Embargoed, i as int).len(),
            decreases events.len() - i,
        {
            proof {
                lemma_members_len(events@, s, e, m, EventRole::Purged, i as int);
                lemma_members_len(events@, s, e, m, EventRole::Embargoed, i as int);
            }
            match event_role(&events[i], t_start, t_end, emb_end) {
                EventRole::Test => test.push(i),
                EventRole::Purged => purged = purged + 1,
                EventRole::Embargoed => embargoed = embargoed + 1,
                EventRole::Train => train.push(i),
            }
            i = i + 1;
        }
        let split = PurgedSplit {
            train_indices: train,
            test_indices: test,
            purged_count: purged,
            embargoed_count: embargoed,
        };
        assert(is_fold(events@, n_bars as int, *config, k as int, split));
        splits.push(split);
        assert(splits@[k as int] == split);
        if k + 1 < n_folds {
            t_start = t_start + fold_size;
        }
        k = k + 1;
    }
    splits
}

/// The members of a role are exactly the indices below `n` of the events
/// that play it.
proof fn lemma_members_exact(
    events: Seq<EventSpan>,
    start: int,
    end: int,
    emb_end: int,
    role: EventRole,
    n: int,
)
    requires
        0 <= n <= events.len(),
        events.len() <= usize::MAX,
    ensures
        forall|j: int|
            0 <= j < members(events, start, end, emb_end, role, n).len() ==> {
                let i = #[trigger] members(events, start, end, emb_end, role, n)[j];
                &&& i < n
                &&& role_of(events[i as int], start, end, emb_end) == role
            },
        forall|i: int|
            0 <= i < n && role_of(#[trigger] events[i], start, end, emb_end) == role ==> members(
                events,
                start,
                end,
                emb_end,
                role,
                n,
            ).contains(i as usize),
    decreases n,
{
    if n > 0 {
        lemma_members_exact(events, start, end, emb_end, role, n - 1);
        let prev = members(events, start, end, emb_end, role, n - 1);
        let cur = members(events, start, end, emb_end, role, n);
        assert forall|i: int|
            0 <= i < n && role_of(#[trigger] events[i], start, end, emb_end) == role implies cur.contains(
            i as usize) by {
            if i < n - 1 {
                let j = choose|j: int| 0 <= j < prev.len() && prev[j] == i as usize;
                assert(cur[j] == i as usize);
            } else {
                assert(cur[cur.len() - 1] == i as usize);
            }
        }
    }
}

proof fn lemma_members_partition(
    events: Seq<EventSpan>,
    start: int,
    end: int,
    emb_end: int,
    n: int,
)
    requires
        0 <= n <= events.len(),
    ensures
        members(events, start, end, emb_end, EventRole::Test, n).len() + members(
            events,
            start,
            end,
            emb_end,
            EventRole::Train,
            n,
        ).len() + members(events, start, end, emb_end, EventRole::Purged, n).len() + members(
            events,
            start,
            end,
            emb_end,
            EventRole::Embargoed,
            n,
        ).len() == n,
    decreases n,
{
    if n > 0 {
        lemma_members_partition(events, start, end, emb_end, n - 1);
    }
}

/// Every event plays exactly one role in a fold: the test set, the training
/// set and the purged and embargoed counts add up to the number of events.
pub proof fn lemma_fold_partition(
    events: Seq<EventSpan>,
    n_bars: usize,
    config: PurgedKFoldConfig,
    k: int,
    split: PurgedSplit,
)
    requires
        is_fold(events, n_bars as int, config, k, split),
    ensures
        split.test_indices@.len() + split.train_indices@.len() + split.purged_count
            + split.embargoed_count == events.len(),
{
    let start = fold_start(n_bars as int, config.n_folds as int, k);
    let end = fold_end(n_bars as int, config.n_folds as int, k);
    let emb = embargo_end(n_bars as int, config.n_folds as int, config.embargo as int, k);
    lemma_members_partition(events, start, end, emb, events.len() as int);
}

/// Purging and embargo: the test set of fold `k` holds exactly the events
/// entered during its test period `[fold_start, fold_end)`, and no training
/// event is entered during the test period, overlaps it, or is entered
/// during the embargo `[fold_end, embargo_end)` that follows it.
pub proof fn lemma_fold_roles(
    events: Seq<EventSpan>,
    n_bars: usize,
    config: PurgedKFoldConfig,
    k: int,
    split: PurgedSplit,
)
    requires
        events.len() <= usize::MAX,
        is_fold(events, n_bars as int, config, k, split),
    ensures
        ({
            let start = fold_start(n_bars as int, config.n_folds as int, k);
            let end = fold_end(n_bars as int, config.n_folds as int, k);
            let emb = embargo_end(n_bars as int, config.n_folds as int, config.embargo as int, k);
            &&& forall|i: int|
                0 <= i < events.len() ==> (split.test_indices@.contains(i as usize) <==> start
                    <= (#[trigger] events[i]).entry_index < end)
            &&& forall|j: int|
                0 <= j < split.train_indices@.len() ==> {
                    let ev = events[#[trigger] split.train_indices@[j] as int];
                    &&& split.train_indices@[j] < events.len()
                    &&& !(start <= ev.entry_index < end)
                    &&& !overlaps(ev, start, end)
                    &&& !(end <= ev.entry_index < emb)
                }
        }),
{
    let start = fold_start(n_bars as int, config.n_folds as int, k);
    let end = fold_end(n_bars as int, config.n_folds as int, k);
    let emb = embargo_end(n_bars as int, config.n_folds as int, config.embargo as int, k);
    let n = events.len() as int;
    lemma_members_exact(events, start, end, emb, EventRole::Test, n);
    lemma_members_exact(events, start, end, emb, EventRole::Train, n);
    assert forall|i: int| 0 <= i < events.len() implies (split.test_indices@.contains(i as usize)
        <==> start <= (#[trigger] events[i]).entry_index < end) by {
        if split.test_indices@.contains(i as usize) {
            let j = choose|j: int|
                0 <= j < split.test_indices@.len() && split.test_indices@[j] == i as usize;
            assert(split.test_indices@[j] == members(events, start, end, emb, EventRole::Test, n)[j]);
        }
    }
    assert forall|j: int| 0 <= j < split.train_indices@.len() implies ({
        let ev = events[#[trigger] split.train_indices@[j] as int];
        &&& split.train_indices@[j] < events.len()
        &&& !(start <= ev.entry_index < end)
        &&& !overlaps(ev, start, end)
        &&& !(end <= ev.entry_index < emb)
    }) by {
        assert(split.train_indices@[j] == members(events, start, end, emb, EventRole::Train, n)[j]);
    }
}

/// No leakage: when every test event of fold `k` has exited by the end of
/// the embargo, no training event overlaps any test event in time (the
/// training event exits no later than the test event is entered, or is
/// entered no earlier than the test event exits).
pub proof fn lemma_fold_no_leakage(
    events: Seq<EventSpan>,
    n_bars: usize,
    config: PurgedKFoldConfig,
    k: int,
    split: PurgedSplit,
)
    requires
        events.len() <= usize::MAX,
        is_fold(events, n_bars as int, config, k, split),
        forall|t: int|
            0 <= t < split.test_indices@.len() ==> (#[trigger] events[split.test_indices@[t] as int]).exit_index
                <= embargo_end(n_bars as int, config.n_folds as int, config.embargo as int, k),
    ensures
        forall|a: int, b: int|
            0 <= a < split.train_indices@.len() && 0 <= b < split.test_indices@.len() ==> {
                let tr = events[#[trigger] split.train_indices@[a] as int];
                let te = events[#[trigger] split.test_indices@[b] as int];
                tr.exit_index <= te.entry_index || tr.entry_index >= te.exit_index
            },
{
    let start = fold_start(n_bars as int, config.n_folds as int, k);
    let end = fold_end(n_bars as int, config.n_folds as int, k);
    let emb = embargo_end(n_bars as int, config.n_folds as int, config.embargo as int, k);
    let n = events.len() as int;
    lemma_fold_roles(events, n_bars, config, k, split);
    lemma_members_exact(events, start, end, emb, EventRole::Test, n);
    assert forall|a: int, b: int|
        0 <= a < split.train_indices@.len() && 0 <= b < split.test_indices@.len() implies {
        let tr = events[#[trigger] split.train_indices@[a] as int];
        let te = events[#[trigger] split.test_indices@[b] as int];
        tr.exit_index <= te.entry_index || tr.entry_index >= te.exit_index
    } by {
        let te_i = split.test_indices@[b];
        assert(te_i == members(events, start, end, emb, EventRole::Test, n)[b]);
        assert(start <= events[te_i as int].entry_index < end);
        assert(events[te_i as int].exit_index <= emb);
    }
}

/// Fold bounds: the first test period starts at bar 0, each one ends where
/// the next starts, every fold but the last spans `n_bars / n_folds` bars,
/// and the last ends at `n_bars`. The embargo after a fold ends `embargo`
/// bars after the fold, or at `n_bars` if that comes first.
pub proof fn lemma_fold_bounds_exact(n_bars: usize, n_folds: usize, embargo: usize, k: int)
    requires
        n_folds > 0,
        0 <= k < n_folds,
    ensures
        fold_start(n_bars as int, n_folds as int, 0) == 0,
        fold_end(n_bars as int, n_folds as int, n_folds - 1) == n_bars,
        k + 1 < n_folds ==> fold_start(n_bars as int, n_folds as int, k + 1) == fold_end(
            n_bars as int,
            n_folds as int,
            k,
        ),
        k + 1 < n_folds ==> fold_end(n_bars as int, n_folds as int, k) - fold_start(
            n_bars as int,
            n_folds as int,
            k,
        ) == n_bars / n_folds,
        ({
            let end = fold_end(n_bars as int, n_folds as int, k);
            let emb = embargo_end(n_bars as int, n_folds as int, embargo as int, k);
            &&& end <= emb <= n_bars
            &&& emb <= end + embargo
            &&& (emb == end + embargo || emb == n_bars)
        }),
{
    lemma_fold_bounds(n_bars as int, n_folds as int, k);
    assert(0 * fold_size(n_bars as int, n_folds as int) == 0) by (nonlinear_arith);
}

/// Fold test periods tile the bars: each bar `b < n_bars` lies in the test
/// period of exactly one fold.
pub proof fn lemma_folds_tile_bars(n_bars: usize, n_folds: usize, b: int)
    requires
        n_folds > 0,
        0 <= b < n_bars,
    ensures
        exists|k: int|
            0 <= k < n_folds && #[trigger] fold_start(n_bars as int, n_folds as int, k) <= b < fold_end(
                n_bars as int,
                n_folds as int,
                k,
            ),
        forall|k1: int, k2: int|
            0 <= k1 < n_folds && 0 <= k2 < n_folds && #[trigger] fold_start(n_bars as int, n_folds as int, k1)
                <= b < fold_end(n_bars as int, n_folds as int, k1) && #[trigger] fold_start(
                n_bars as int,
                n_folds as int,
                k2,
            ) <= b < fold_end(n_bars as int, n_folds as int, k2) ==> k1 == k2,
{
    let n = n_bars as int;
    let f = n_folds as int;
    let fs = fold_size(n, f);
    lemma_fold_bounds(n, f, f - 1);
    let k: int = if fs == 0 {
        f - 1
    } else if b / fs < f - 1 {
        b / fs
    } else {
        f - 1
    };
    if fs == 0 {
        assert(fold_start(n, f, k) == 0) by (nonlinear_arith)
            requires
                fs == 0,
                fold_start(n, f, k) == k * fs,
        ;
    } else {
        vstd::arithmetic::div_mod::lemma_fundamental_div_mod(b, fs);
        assert(b / fs >= 0) by (nonlinear_arith)
            requires
                b >= 0,
                fs > 0,
        ;
        if b / fs < f - 1 {
            assert(k * fs <= b < (k + 1) * fs) by (nonlinear_arith)
                requires
                    k == b / fs,
                    b == fs * (b / fs) + b % fs,
                    0 <= b % fs < fs,
            ;
        } else {
            assert(k * fs <= b) by (nonlinear_arith)
                requires
                    k <= b / fs,
                    b == fs * (b / fs) + b % fs,
                    0 <= b % fs,
                    fs > 0,
            ;
        }
    }
    assert(fold_start(n, f, k) <= b < fold_end(n, f, k));
    assert forall|k1: int, k2: int|
        0 <= k1 < n_folds && 0 <= k2 < n_folds && #[trigger] fold_start(n, f, k1) <= b < fold_end(n, f, k1)
            && #[trigger] fold_start(n, f, k2) <= b < fold_end(n, f, k2) implies k1 == k2 by {
        if k1 < k2 {
            lemma_fold_bounds(n, f, k1);
            assert((k1 + 1) * fs <= k2 * fs) by (nonlinear_arith)
                requires
                    k1 + 1 <= k2,
                    fs >= 0,
            ;
        } else if k2 < k1 {
            lemma_fold_bounds(n, f, k2);
            assert((k2 + 1) * fs <= k1 * fs) by (nonlinear_arith)
                requires
                    k2 + 1 <= k1,
                    fs >= 0,
            ;
        }
    }
}

/// Every event entered inside the data is in the test set of exactly one
/// fold.
pub proof fn lemma_each_event_tested_once(
    events: Seq<EventSpan>,
    n_bars: usize,
    config: PurgedKFoldConfig,
    splits: Seq<PurgedSplit>,
    i: int,
)
    requires
        events.len() <= usize::MAX,
        config.n_folds > 0,
        splits.len() == config.n_folds,
        forall|k: int| 0 <= k < splits.len() ==> #[trigger] is_fold(events, n_bars as int, config, k, splits[k]),
        0 <= i < events.len(),
        events[i].entry_index < n_bars,
    ensures
        exists|k: int| 0 <= k < splits.len() && (#[trigger] splits[k]).test_indices@.contains(i as usize),
        forall|k1: int, k2: int|
            0 <= k1 < splits.len() && 0 <= k2 < splits.len() && (#[trigger] splits[k1]).test_indices@.contains(
                i as usize,
            ) && (#[trigger] splits[k2]).test_indices@.contains(i as usize) ==> k1 == k2,
{
    let b = events[i].entry_index as int;
    lemma_folds_tile_bars(n_bars, config.n_folds, b);
    let k = choose|k: int|
        0 <= k < config.n_folds && #[trigger] fold_start(n_bars as int, config.n_folds as int, k) <= b
            < fold_end(n_bars as int, config.n_folds as int, k);
    lemma_fold_roles(events, n_bars, config, k, splits[k]);
    assert(splits[k].test_indices@.contains(i as usize));
    assert forall|k1: int, k2: int|
        0 <= k1 < splits.len() && 0 <= k2 < splits.len() && (#[trigger] splits[k1]).test_indices@.contains(
            i as usize,
        ) && (#[trigger] splits[k2]).test_indices@.contains(i as usize) implies k1 == k2 by {
        lemma_fold_roles(events, n_bars, config, k1, splits[k1]);
        lemma_fold_roles(events, n_bars, config, k2, splits[k2]);
    }
}

/// The members of a role below `n` are as many as the events below `n`
/// that satisfy `pred`, when `pred` holds exactly of the events playing it.
proof fn lemma_members_count(
    events: Seq<EventSpan>,
    start: int,
    end: int,
    emb_end: int,
    role: EventRole,
    pred: spec_fn(EventSpan) -> bool,
    n: int,
)
    requires
        0 <= n <= events.len(),
        forall|ev: EventSpan| #[trigger] pred(ev) == (role_of(ev, start, end, emb_end) == role),
    ensures
        members(events, start, end, emb_end, role, n).len() == events.subrange(0, n).filter(pred).len(),
    decreases n,
{
    reveal(Seq::filter);
    if n > 0 {
        lemma_members_count(events, start, end, emb_end, role, pred, n - 1);
        let sub = events.subrange(0, n);
        assert(sub.drop_last() =~= events.subrange(0, n - 1));
        assert(sub.last() == events[n - 1]);
        assert(pred(events[n - 1]) == (role_of(events[n - 1], start, end, emb_end) == role));
        assert(sub.filter(pred) == (if pred(sub.last()) {
            sub.drop_last().filter(pred).push(sub.last())
        } else {
            sub.drop_last().filter(pred)
        }));
    } else {
        assert(events.subrange(0, n).len() == 0);
        assert(events.subrange(0, n).filter(pred).len() == 0);
    }
}

/// Training keeps every event it may keep: in fold `k`, an event is a
/// training event exactly when it is not entered in the test period
/// `[start, end)`, does not overlap it (`entry < end` and `exit > start`),
/// and is not entered in the embargo `[end, embargo_end)`. The purged count
/// is the number of events not entered in the test period that overlap it,
/// and the embargoed count the number of the remaining events entered in
/// the embargo.
pub proof fn lemma_fold_train_complete(
    events: Seq<EventSpan>,
    n_bars: usize,
    config: PurgedKFoldConfig,
    k: int,
    split: PurgedSplit,
)
    requires
        events.len() <= usize::MAX,
        is_fold(events, n_bars as int, config, k, split),
    ensures
        ({
            let start = fold_start(n_bars as int, config.n_folds as int, k);
            let end = fold_end(n_bars as int, config.n_folds as int, k);
            let emb = embargo_end(n_bars as int, config.n_folds as int, config.embargo as int, k);
            &&& forall|i: int|
                0 <= i < events.len() ==> (split.train_indices@.contains(i as usize) <==> {
                    let ev = #[trigger] events[i];
                    &&& !(start <= ev.entry_index < end)
                    &&& !(ev.entry_index < end && ev.exit_index > start)
                    &&& !(end <= ev.entry_index < emb)
                })
            &&& split.purged_count == events.filter(
                |ev: EventSpan|
                    !(start <= ev.entry_index < end) && ev.entry_index < end && ev.exit_index > start,
            ).len()
            &&& split.embargoed_count == events.filter(
                |ev: EventSpan|
                    !(start <= ev.entry_index < end) && !(ev.entry_index < end && ev.exit_index
                        > start) && end <= ev.entry_index < emb,
            ).len()
        }),
{
    let start = fold_start(n_bars as int, config.n_folds as int, k);
    let end = fold_end(n_bars as int, config.n_folds as int, k);
    let emb = embargo_end(n_bars as int, config.n_folds as int, config.embargo as int, k);
    let n = events.len() as int;
    lemma_members_exact(events, start, end, emb, EventRole::Train, n);
    assert forall|i: int| 0 <= i < events.len() implies (split.train_indices@.contains(i as usize)
        <==> {
        let ev = #[trigger] events[i];
        &&& !(start <= ev.entry_index < end)
        &&& !(ev.entry_index < end && ev.exit_index > start)
        &&& !(end <= ev.entry_index < emb)
    }) by {
        if split.train_indices@.contains(i as usize) {
            let j = choose|j: int|
                0 <= j < split.train_indices@.len() && split.train_indices@[j] == i as usize;
            assert(split.train_indices@[j] == members(events, start, end, emb, EventRole::Train, n)[j]);
        }
    }
    let purged = |ev: EventSpan|
        !(start <= ev.entry_index < end) && ev.entry_index < end && ev.exit_index > start;
    let embargoed = |ev: EventSpan|
        !(start <= ev.entry_index < end) && !(ev.entry_index < end && ev.exit_index > start) && end
            <= ev.entry_index < emb;
    lemma_members_count(events, start, end, emb, EventRole::Purged, purged, n);
    lemma_members_count(events, start, end, emb, EventRole::Embargoed, embargoed, n);
    assert(events.subrange(0, n) =~= events);
}

} // verus!
