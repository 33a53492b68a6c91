//! Loan-default features: home ownership and its encoding, credit grades.
use vstd::prelude::*;

verus! {

/// Home ownership status.
#[derive(Debug, Clone, Copy, PartialEq, Eq, Structural)]
pub enum HomeOwnership {
    Rent,
    Own,
    Mortgage,
}

/// Utility functions for deriving features from loan data.
pub struct FeatureExtractor;

impl FeatureExtractor {
    /// Rank of a credit grade on the risk scale, clamped to the grades A
    /// (1) to G (7): A ranks 0, G ranks 6, grades below A rank as A and
    /// grades above G rank as G. The risk score is this rank over 6.
    pub fn grade_rank(grade: u8) -> (r: u8)
        ensures
            r == if grade < 1 { 0 } else if grade > 7 { 6 } else { grade - 1 },
            r <= 6,
    {
        if grade < 1 {
            0
        } else if grade > 7 {
            6
        } else {
            grade - 1
        }
    }
}

/// One-hot encoder for categorical features.
pub struct OneHotEncoder;

impl OneHotEncoder {
    /// Number of categories of a home-ownership encoding.
    pub open spec fn width() -> nat {
        3
    }

    /// Position of the hot entry in the `[RENT, OWN, MORTGAGE]` encoding.
    pub fn hot_index(home_ownership: &HomeOwnership) -> (r: usize)
        ensures
            r == match home_ownership {
                HomeOwnership::Rent => 0usize,
                HomeOwnership::Own => 1usize,
                HomeOwnership::Mortgage => 2usize,
            },
            r < Self::width(),
    {
        match home_ownership {
            HomeOwnership::Rent => 0,
            HomeOwnership::Own => 1,
            HomeOwnership::Mortgage => 2,
        }
    }
}

/// Distinct categories have distinct encodings.
pub proof fn lemma_one_hot_injective(a: HomeOwnership, b: HomeOwnership)
    ensures
        a != b ==> match a {
            HomeOwnership::Rent => 0usize,
            HomeOwnership::Own => 1usize,
            HomeOwnership::Mortgage => 2usize,
        } != match b {
            HomeOwnership::Rent => 0usize,
            HomeOwnership::Own => 1usize,
            HomeOwnership::Mortgage => 2usize,
        },
{
}

/// Number of the first `n` labels equal to `value`.
pub open spec fn count_label(labels: Seq<bool>, value: bool, n: int) -> nat
    decreases n,
{
    if n <= 0 {
        0
    } else {
        count_label(labels, value, n - 1) + if labels[n - 1] == value { 1nat } else { 0nat }
    }
}

proof fn lemma_count_label_bounded(labels: Seq<bool>, value: bool, n: int)
    requires
        0 <= n,
    ensures
        count_label(labels, value, n) <= n,
        count_label(labels, true, n) + count_label(labels, false, n) == n,
    decreases n,
{
    if n > 0 {
        lemma_count_label_bounded(labels, value, n - 1);
    }
}

/// The (false positives, true positives) counts of a ROC curve: with the
/// labels ordered by decreasing score, point `k` counts the negatives and
/// positives among the first `k` labels, i.e. when the `k` best-scored
/// cases are predicted positive. Point 0 is `(0, 0)` and the last point is
/// (all negatives, all positives); every step adds one case to exactly one
/// of the counts.
pub fn roc_counts(sorted_labels: &[bool]) -> (r: Vec<(usize, usize)>)
    ensures
        r.len() == sorted_labels@.len() + 1,
        r@[0] == (0usize, 0usize),
        forall|k: int|
            0 <= k < r.len() ==> #[trigger] r@[k] == (
                count_label(sorted_labels@, false, k) as usize,
                count_label(sorted_labels@, true, k) as usize,
            ),
        forall|k: int|
            0 <= k < sorted_labels@.len() ==> if sorted_labels@[k] {
                r@[k + 1] == (r@[k].0, (r@[k].1 + 1) as usize)
            } else {
                r@[k + 1] == ((r@[k].0 + 1) as usize, r@[k].1)
            },
{
    let mut r: Vec<(usize, usize)> = Vec::new();
    let mut fp: usize = 0;
    let mut tp: usize = 0;
    r.push((0, 0));
    let mut i: usize = 0;
    while i < sorted_labels.len()
        invariant
            i <= sorted_labels@.len(),
            r.len() == i + 1,
            fp == count_label(sorted_labels@, false, i as int),
            tp == count_label(sorted_labels@, true, i as int),
            forall|k: int|
                0 <= k < r.len() ==> #[trigger] r@[k] == (
                    count_label(sorted_labels@, false, k) as usize,
                    count_label(sorted_labels@, true, k) as usize,
                ),
        decreases sorted_labels@.len() - i,
    {
        proof {
            lemma_count_label_bounded(sorted_labels@, true, i as int);
        }
        if sorted_labels[i] {
            tp = tp + 1;
        } else {
            fp = fp + 1;
        }
        r.push((fp, tp));
        i = i + 1;
    }
    proof {
        assert forall|k: int| 0 <= k < sorted_labels@.len() implies if sorted_labels@[k] {
            r@[k + 1] == (r@[k].0, (r@[k].1 + 1) as usize)
        } else {
            r@[k + 1] == ((r@[k].0 + 1) as usize, r@[k].1)
        } by {
            assert(r@[k + 1] == (
                count_label(sorted_labels@, false, k + 1) as usize,
                count_label(sorted_labels@, true, k + 1) as usize,
            ));
            assert(r@[k] == (
                count_label(sorted_labels@, false, k) as usize,
                count_label(sorted_labels@, true, k) as usize,
            ));
            lemma_count_label_bounded(sorted_labels@, true, k + 1);
        }
    }
    r
}

} // verus!
