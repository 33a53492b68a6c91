//! Entry scheduling for the event-based backtests.
//!
//! The end-to-end pipeline enters a position every `entry_step` bars, as
//! long as the entry leaves room for the event to develop; the generic
//! backtest enters on every `entry_step`-th training bar and trades a test
//! bar only when it is one of those entries.
use vstd::prelude::*;

verus! {

/// Bar `i` of `n_prices` bars may be an entry of an event with time barrier
/// `time_barrier`: it lies in the data, and either the whole time barrier
/// fits after it or it is not the last bar.
pub open spec fn entry_allowed(i: int, n_prices: int, time_barrier: int) -> bool {
    i < n_prices && (i + time_barrier < n_prices || i < n_prices - 1)
}

proof fn lemma_entry_allowed_downward(i: int, j: int, n_prices: int, time_barrier: int)
    requires
        0 <= i <= j,
        0 <= time_barrier,
        entry_allowed(j, n_prices, time_barrier),
    ensures
        entry_allowed(i, n_prices, time_barrier),
{
}

/// Which bars may be entries: every bar but the last, and the last bar too
/// when the time barrier is zero.
pub proof fn lemma_entry_allowed_exactly(i: int, n_prices: int, time_barrier: int)
    requires
        0 <= i,
        0 <= time_barrier,
    ensures
        entry_allowed(i, n_prices, time_barrier) <==> (i + 1 < n_prices || (time_barrier == 0 && i
            < n_prices)),
{
}

/// The entry bars `0, step, 2 * step, ...`, taken while they are allowed
/// (see [`entry_allowed`]); every allowed multiple of `entry_step` is listed.
pub fn entry_indices(n_prices: usize, entry_step: usize, time_barrier: usize) -> (r: Vec<usize>)
    requires
        entry_step > 0,
    ensures
        forall|k: int| 0 <= k < r.len() ==> #[trigger] r@[k] == k * entry_step,
        forall|k: int| 0 <= k < r.len() ==> entry_allowed(#[trigger] r@[k] as int, n_prices as int, time_barrier as int),
        !entry_allowed(r.len() * entry_step, n_prices as int, time_barrier as int),
        forall|m: int|
            0 <= m && entry_allowed(#[trigger] (m * entry_step), n_prices as int, time_barrier as int) ==> m
                < r.len(),
        forall|k: int|
            0 <= k < r.len() ==> #[trigger] r@[k] + 1 < n_prices || (time_barrier == 0 && r@[k]
                < n_prices),
        forall|m: int|
            0 <= m && (#[trigger] (m * entry_step) + 1 < n_prices || (time_barrier == 0 && m
                * entry_step < n_prices)) ==> m < r.len(),
{
    let mut r: Vec<usize> = Vec::new();
    let mut i: usize = 0;
    assert(0 * entry_step == 0) by (nonlinear_arith);
    loop
        invariant_except_break
            i == r.len() * entry_step,
        invariant
            entry_step > 0,
            forall|k: int| 0 <= k < r.len() ==> #[trigger] r@[k] == k * entry_step,
            forall|k: int| 0 <= k < r.len() ==> entry_allowed(#[trigger] r@[k] as int, n_prices as int, time_barrier as int),
        ensures
            !entry_allowed(r.len() * entry_step, n_prices as int, time_barrier as int),
        decreases usize::MAX - i,
    {
        let allowed = i < n_prices && (time_barrier < n_prices - i || i < n_prices - 1);
        if !allowed {
            break;
        }
        let ghost len = r.len() as int;
        r.push(i);
        assert(r@[len] == len * entry_step);
        proof {
            assert((len + 1) * entry_step == len * entry_step + entry_step) by (nonlinear_arith);
        }
        if entry_step > usize::MAX - i {
            break;
        }
        i = i + entry_step;
    }
    proof {
        assert forall|k: int| 0 <= k < r.len() implies #[trigger] r@[k] + 1 < n_prices || (
        time_barrier == 0 && r@[k] < n_prices) by {
            lemma_entry_allowed_exactly(r@[k] as int, n_prices as int, time_barrier as int);
        }
        assert forall|m: int|
            0 <= m && (#[trigger] (m * entry_step) + 1 < n_prices || (time_barrier == 0 && m
                * entry_step < n_prices)) implies m < r.len() by {
            assert(0 <= m * entry_step) by (nonlinear_arith)
                requires
                    0 <= m,
            ;
            lemma_entry_allowed_exactly(m * entry_step, n_prices as int, time_barrier as int);
            if m >= r.len() {
                assert(m * entry_step >= r.len() * entry_step) by (nonlinear_arith)
                    requires
                        m >= r.len(),
                        entry_step > 0,
                ;
                assert(0 <= r.len() * entry_step) by (nonlinear_arith)
                    requires
                        entry_step > 0,
                ;
                lemma_entry_allowed_downward(
                    r.len() * entry_step,
                    m * entry_step,
                    n_prices as int,
                    time_barrier as int,
                );
            }
        }
        assert forall|m: int|
            0 <= m && entry_allowed(#[trigger] (m * entry_step), n_prices as int, time_barrier as int) implies m
                < r.len() by {
            if m >= r.len() {
                assert(m * entry_step >= r.len() * entry_step) by (nonlinear_arith)
                    requires
                        m >= r.len(),
                        entry_step > 0,
                ;
                assert(0 <= r.len() * entry_step) by (nonlinear_arith)
                    requires
                        entry_step > 0,
                ;
                lemma_entry_allowed_downward(
                    r.len() * entry_step,
                    m * entry_step,
                    n_prices as int,
                    time_barrier as int,
                );
            }
        }
    }
    r
}

/// Every `step`-th element of `indices`, starting with the first:
/// `indices[0], indices[step], indices[2 * step], ...`.
pub fn step_entries(indices: &[usize], step: usize) -> (r: Vec<usize>)
    requires
        step > 0,
    ensures
        forall|k: int| 0 <= k < r.len() ==> #[trigger] r@[k] == indices@[k * step],
        r.len() * step >= indices@.len(),
        r.len() == 0 || (r.len() - 1) * step < indices@.len(),
{
    let mut r: Vec<usize> = Vec::new();
    let mut i: usize = 0;
    assert(0 * step == 0) by (nonlinear_arith);
    while i < indices.len()
        invariant_except_break
            i == r.len() * step,
        invariant
            step > 0,
            forall|k: int| 0 <= k < r.len() ==> (#[trigger] r@[k]) == indices@[k * step],
            r.len() == 0 || (r.len() - 1) * step < indices@.len(),
        ensures
            r.len() * step >= indices@.len(),
        decreases usize::MAX - i,
    {
        let ghost len = r.len() as int;
        let ghost old_r = r@;
        r.push(indices[i]);
        assert(r@[len] == indices@[len * step]);
        assert forall|k: int| 0 <= k < r.len() implies (#[trigger] r@[k])
            == indices@[k * step] by {
            if k < len {
                assert(r@[k] == old_r[k]);
            }
        }
        proof {
            assert((len + 1) * step == len * step + step) by (nonlinear_arith);
        }
        if step > usize::MAX - i {
            break;
        }
        i = i + step;
    }
    r
}

/// Position of the first occurrence of `bar` in `entries`.
pub fn entry_position(entries: &[usize], bar: usize) -> (r: Option<usize>)
    ensures
        match r {
            Some(p) => p < entries.len() && entries@[p as int] == bar && forall|q: int|
                0 <= q < p ==> entries@[q] != bar,
            None => forall|q: int| 0 <= q < entries.len() ==> entries@[q] != bar,
        },
{
    let mut p: usize = 0;
    while p < entries.len()
        invariant
            p <= entries.len(),
            forall|q: int| 0 <= q < p ==> entries@[q] != bar,
        decreases entries.len() - p,
    {
        if entries[p] == bar {
            return Some(p);
        }
        p = p + 1;
    }
    None
}

/// `p` is the position of the first occurrence of `bar` in `entries`.
pub open spec fn is_first_position(entries: Seq<usize>, bar: usize, p: int) -> bool {
    &&& 0 <= p < entries.len()
    &&& entries[p] == bar
    &&& forall|q: int| 0 <= q < p ==> entries[q] != bar
}

/// The label with which test bar `bar` is traded: the label of the entry at
/// the first position of `bar` among `entries`, when there is such an entry,
/// it has a label, and the label is not zero.
pub open spec fn traded_label(entries: Seq<usize>, labels: Seq<i8>, bar: usize) -> Option<i8> {
    if exists|p: int| is_first_position(entries, bar, p) {
        let p = choose|p: int| is_first_position(entries, bar, p);
        if p < labels.len() && labels[p] != 0 {
            Some(labels[p])
        } else {
            None
        }
    } else {
        None
    }
}

/// The test bars that are traded, in order, each with its label.
pub open spec fn fold_trades_of(entries: Seq<usize>, labels: Seq<i8>, tests: Seq<usize>) -> Seq<(usize, i8)>
    decreases tests.len(),
{
    if tests.len() == 0 {
        Seq::empty()
    } else {
        let prev = fold_trades_of(entries, labels, tests.drop_last());
        match traded_label(entries, labels, tests.last()) {
            Some(l) => prev.push((tests.last(), l)),
            None => prev,
        }
    }
}

proof fn lemma_first_position_unique(entries: Seq<usize>, bar: usize, p: int, q: int)
    requires
        is_first_position(entries, bar, p),
        is_first_position(entries, bar, q),
    ensures
        p == q,
{
    if p < q {
        assert(entries[p] != bar);
    } else if q < p {
        assert(entries[q] != bar);
    }
}

/// The trades of one fold of the generic backtest: the test bars, in order,
/// that are labelled entries with a non-zero label, each with that label
/// (see [`traded_label`]). The number of trades is the length.
pub fn fold_trades(entries: &[usize], labels: &[i8], test_indices: &[usize]) -> (r: Vec<(usize, i8)>)
    ensures
        r@ == fold_trades_of(entries@, labels@, test_indices@),
        forall|k: int|
            0 <= k < r@.len() ==> {
                let (bar, label) = #[trigger] r@[k];
                &&& test_indices@.contains(bar)
                &&& label != 0
                &&& exists|p: int|
                    0 <= p < entries@.len() && p < labels@.len() && entries@[p] == bar && labels@[p]
                        == label && forall|q: int| 0 <= q < p ==> entries@[q] != bar
            },
        forall|j: int, p: int|
            0 <= j < test_indices@.len() && 0 <= p < entries@.len() && p < labels@.len()
                && entries@[p] == test_indices@[j] && labels@[p] != 0 && (forall|q: int|
                0 <= q < p ==> entries@[q] != test_indices@[j]) ==> r@.contains(
                (#[trigger] test_indices@[j], #[trigger] labels@[p]),
            ),
{
    let mut r: Vec<(usize, i8)> = Vec::new();
    let mut i: usize = 0;
    while i < test_indices.len()
        invariant
            i <= test_indices@.len(),
            r@ == fold_trades_of(entries@, labels@, test_indices@.subrange(0, i as int)),
        decreases test_indices@.len() - i,
    {
        let ghost before = test_indices@.subrange(0, i as int);
        let ghost after = test_indices@.subrange(0, i + 1);
        assert(after.drop_last() =~= before);
        let bar = test_indices[i];
        let label = match entry_position(entries, bar) {
            Some(p) => {
                proof {
                    assert(is_first_position(entries@, bar, p as int));
                    let c = choose|c: int| is_first_position(entries@, bar, c);
                    lemma_first_position_unique(entries@, bar, p as int, c);
                }
                if p < labels.len() && labels[p] != 0 {
                    Some(labels[p])
                } else {
                    None
                }
            },
            None => {
                proof {
                    assert(!exists|c: int| is_first_position(entries@, bar, c));
                }
                None
            },
        };
        assert(label == traded_label(entries@, labels@, bar));
        if let Some(l) = label {
            r.push((bar, l));
        }
        i = i + 1;
    }
    assert(test_indices@.subrange(0, test_indices@.len() as int) =~= test_indices@);
    proof {
        lemma_fold_trades_exact(entries@, labels@, test_indices@);
    }
    r
}

proof fn lemma_fold_trades_exact(entries: Seq<usize>, labels: Seq<i8>, tests: Seq<usize>)
    ensures
        forall|k: int|
            0 <= k < fold_trades_of(entries, labels, tests).len() ==> {
                let (bar, label) = #[trigger] fold_trades_of(entries, labels, tests)[k];
                &&& tests.contains(bar)
                &&& label != 0
                &&& exists|p: int|
                    0 <= p < entries.len() && p < labels.len() && entries[p] == bar && labels[p]
                        == label && forall|q: int| 0 <= q < p ==> entries[q] != bar
            },
        forall|j: int, p: int|
            0 <= j < tests.len() && 0 <= p < entries.len() && p < labels.len() && entries[p] == tests[j]
                && labels[p] != 0 && (forall|q: int| 0 <= q < p ==> entries[q] != tests[j])
                ==> fold_trades_of(entries, labels, tests).contains(
                (#[trigger] tests[j], #[trigger] labels[p]),
            ),
    decreases tests.len(),
{
    if tests.len() > 0 {
        let prev_tests = tests.drop_last();
        lemma_fold_trades_exact(entries, labels, prev_tests);
        let prev = fold_trades_of(entries, labels, prev_tests);
        let cur = fold_trades_of(entries, labels, tests);
        let last = tests.last();
        assert forall|k: int| 0 <= k < cur.len() implies {
            let (bar, label) = #[trigger] cur[k];
            &&& tests.contains(bar)
            &&& label != 0
            &&& exists|p: int|
                0 <= p < entries.len() && p < labels.len() && entries[p] == bar && labels[p] == label
                    && forall|q: int| 0 <= q < p ==> entries[q] != bar
        } by {
            if k < prev.len() {
                assert(cur[k] == prev[k]);
                let (bar, label) = prev[k];
                let jj = choose|jj: int| 0 <= jj < prev_tests.len() && prev_tests[jj] == bar;
                assert(tests[jj] == bar);
            } else {
                assert(tests[tests.len() - 1] == last);
                let c = choose|c: int| is_first_position(entries, last, c);
                assert(is_first_position(entries, last, c));
            }
        }
        assert forall|j: int, p: int|
            0 <= j < tests.len() && 0 <= p < entries.len() && p < labels.len() && entries[p] == tests[j]
                && labels[p] != 0 && (forall|q: int| 0 <= q < p ==> entries[q] != tests[j]) implies cur.contains(
            (#[trigger] tests[j], #[trigger] labels[p]),
        ) by {
            if j < tests.len() - 1 {
                assert(prev_tests[j] == tests[j]);
                assert(prev.contains((prev_tests[j], labels[p])));
                let kk = choose|kk: int| 0 <= kk < prev.len() && prev[kk] == (prev_tests[j], labels[p]);
                assert(cur[kk] == prev[kk]);
            } else {
                assert(is_first_position(entries, last, p));
                let c = choose|c: int| is_first_position(entries, last, c);
                lemma_first_position_unique(entries, last, p, c);
                assert(cur[cur.len() - 1] == (tests[j], labels[p]));
            }
        }
    }
}

/// The bounds reported for a run of bar indices: the first index, or 0 when
/// there is none, and one past the last index, or 1 when there is none.
pub fn index_bounds(indices: &[usize]) -> (r: (usize, usize))
    requires
        indices@.len() == 0 || indices@.last() < usize::MAX,
    ensures
        r.0 == if indices@.len() == 0 { 0 } else { indices@[0] as int },
        r.1 == if indices@.len() == 0 { 1 } else { indices@.last() + 1 },
{
    if indices.len() == 0 {
        (0, 1)
    } else {
        (indices[0], indices[indices.len() - 1] + 1)
    }
}

} // verus!
