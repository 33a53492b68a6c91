//! Evaluation of a binary fraud detector: the confusion matrix.
use vstd::prelude::*;

verus! {

/// Confusion matrix for binary classification.
#[derive(Debug, Clone, Copy, PartialEq, Eq, Structural)]
pub struct ConfusionMatrix {
    /// True positives: correctly predicted fraud.
    pub tp: usize,
    /// False positives: normal transactions predicted as fraud.
    pub fp: usize,
    /// True negatives: correctly predicted normal.
    pub tn: usize,
    /// False negatives: fraud transactions predicted as normal.
    pub fn_: usize,
}

/// Number of the first `n` (prediction, actual) pairs equal to
/// `(predicted, actual)`.
pub open spec fn count_outcome(outcomes: Seq<(bool, bool)>, predicted: bool, actual: bool, n: int) -> nat
    decreases n,
{
    if n <= 0 {
        0
    } else {
        count_outcome(outcomes, predicted, actual, n - 1) + if outcomes[n - 1] == (predicted, actual) {
            1nat
        } else {
            0nat
        }
    }
}

proof fn lemma_counts_add_up(outcomes: Seq<(bool, bool)>, n: int)
    requires
        0 <= n,
    ensures
        count_outcome(outcomes, true, true, n) + count_outcome(outcomes, true, false, n)
            + count_outcome(outcomes, false, false, n) + count_outcome(outcomes, false, true, n) == n,
    decreases n,
{
    if n > 0 {
        lemma_counts_add_up(outcomes, n - 1);
        let o = outcomes[n - 1];
        assert(o == (o.0, o.1));
        if o.0 {
            if o.1 {
                assert(o == (true, true));
            } else {
                assert(o == (true, false));
            }
        } else {
            if o.1 {
                assert(o == (false, true));
            } else {
                assert(o == (false, false));
            }
        }
    }
}

proof fn lemma_count_outcome_filter(
    outcomes: Seq<(bool, bool)>,
    predicted: bool,
    actual: bool,
    pred: spec_fn((bool, bool)) -> bool,
    n: int,
)
    requires
        0 <= n <= outcomes.len(),
        forall|o: (bool, bool)| #[trigger] pred(o) == (o.0 == predicted && o.1 == actual),
    ensures
        count_outcome(outcomes, predicted, actual, n) == outcomes.subrange(0, n).filter(pred).len(),
    decreases n,
{
    reveal(Seq::filter);
    if n > 0 {
        lemma_count_outcome_filter(outcomes, predicted, actual, pred, n - 1);
        let sub = outcomes.subrange(0, n);
        assert(sub.drop_last() =~= outcomes.subrange(0, n - 1));
        let o = outcomes[n - 1];
        assert(pred(o) == (o == (predicted, actual)));
    } else {
        assert(outcomes.subrange(0, n).len() == 0);
    }
}

impl ConfusionMatrix {
    /// Tally (prediction, actual) pairs, `true` meaning fraud: a predicted
    /// and actual fraud is a true positive, a predicted fraud that is normal
    /// a false positive, and so on.
    pub fn from_outcomes(outcomes: &[(bool, bool)]) -> (r: ConfusionMatrix)
        ensures
            r.tp == count_outcome(outcomes@, true, true, outcomes@.len() as int),
            r.fp == count_outcome(outcomes@, true, false, outcomes@.len() as int),
            r.tn == count_outcome(outcomes@, false, false, outcomes@.len() as int),
            r.fn_ == count_outcome(outcomes@, false, true, outcomes@.len() as int),
            r.tp + r.fp + r.tn + r.fn_ == outcomes@.len(),
            r.tp == outcomes@.filter(|o: (bool, bool)| o.0 && o.1).len(),
            r.fp == outcomes@.filter(|o: (bool, bool)| o.0 && !o.1).len(),
            r.tn == outcomes@.filter(|o: (bool, bool)| !o.0 && !o.1).len(),
            r.fn_ == outcomes@.filter(|o: (bool, bool)| !o.0 && o.1).len(),
    {
        let mut tp: usize = 0;
        let mut fp: usize = 0;
        let mut tn: usize = 0;
        let mut fn_: usize = 0;
        let mut i: usize = 0;
        while i < outcomes.len()
            invariant
                i <= outcomes.len(),
                tp == count_outcome(outcomes@, true, true, i as int),
                fp == count_outcome(outcomes@, true, false, i as int),
                tn == count_outcome(outcomes@, false, false, i as int),
                fn_ == count_outcome(outcomes@, false, true, i as int),
            decreases outcomes.len() - i,
        {
            proof {
                lemma_counts_add_up(outcomes@, i as int);
            }
            let (predicted, actual) = outcomes[i];
            if predicted && actual {
                tp = tp + 1;
            } else if predicted && !actual {
                fp = fp + 1;
            } else if !predicted && !actual {
                tn = tn + 1;
            } else {
                fn_ = fn_ + 1;
            }
            i = i + 1;
        }
        proof {
            let n = outcomes@.len() as int;
            lemma_counts_add_up(outcomes@, n);
            lemma_count_outcome_filter(outcomes@, true, true, |o: (bool, bool)| o.0 && o.1, n);
            lemma_count_outcome_filter(outcomes@, true, false, |o: (bool, bool)| o.0 && !o.1, n);
            lemma_count_outcome_filter(outcomes@, false, false, |o: (bool, bool)| !o.0 && !o.1, n);
            lemma_count_outcome_filter(outcomes@, false, true, |o: (bool, bool)| !o.0 && o.1, n);
            assert(outcomes@.subrange(0, n) =~= outcomes@);
        }
        ConfusionMatrix { tp, fp, tn, fn_ }
    }
}

} // verus!
