use quant_lab::common::{transaction_layout, TransactionLayout};
use quant_lab::fraud::ConfusionMatrix;
use quant_lab::loan::{roc_counts, FeatureExtractor, HomeOwnership, OneHotEncoder};
use quant_lab::stocks::total_volume;

#[test]
fn test_confusion_matrix_creation() {
    let cm = ConfusionMatrix { tp: 10, fp: 5, tn: 80, fn_: 5 };
    assert_eq!(cm.tp, 10);
}

#[test]
fn confusion_matrix_from_outcomes() {
    let outcomes = vec![(true, true), (true, false), (false, false), (false, false), (false, true)];
    let cm = ConfusionMatrix::from_outcomes(&outcomes);
    assert_eq!(cm, ConfusionMatrix { tp: 1, fp: 1, tn: 2, fn_: 1 });
    assert_eq!(cm.tp + cm.fp + cm.tn + cm.fn_, 5);
    assert_eq!(ConfusionMatrix::from_outcomes(&[]), ConfusionMatrix { tp: 0, fp: 0, tn: 0, fn_: 0 });
}

#[test]
fn one_hot_positions() {
    assert_eq!(OneHotEncoder::hot_index(&HomeOwnership::Rent), 0);
    assert_eq!(OneHotEncoder::hot_index(&HomeOwnership::Own), 1);
    assert_eq!(OneHotEncoder::hot_index(&HomeOwnership::Mortgage), 2);
}

#[test]
fn grade_ranks() {
    assert_eq!(FeatureExtractor::grade_rank(1), 0);
    assert_eq!(FeatureExtractor::grade_rank(4), 3);
    assert_eq!(FeatureExtractor::grade_rank(7), 6);
    assert_eq!(FeatureExtractor::grade_rank(0), 0);
    assert_eq!(FeatureExtractor::grade_rank(9), 6);
}

#[test]
fn roc_counts_steps() {
    // Labels sorted by decreasing score.
    let counts = roc_counts(&[true, true, false, true, false]);
    assert_eq!(counts, vec![(0, 0), (0, 1), (0, 2), (1, 2), (1, 3), (2, 3)]);
    assert_eq!(roc_counts(&[]), vec![(0, 0)]);
}

#[test]
fn total_volumes() {
    assert_eq!(total_volume(&[1000, 2000, 3000]), 6000);
    assert_eq!(total_volume(&[]), 0);
    assert_eq!(total_volume(&[u64::MAX, u64::MAX]), 2 * u64::MAX as u128);
}

#[test]
fn transaction_layout_splits_time_features_amount_class() {
    assert_eq!(transaction_layout(0), None);
    assert_eq!(transaction_layout(2), None);
    assert_eq!(
        transaction_layout(3),
        Some(TransactionLayout { features_start: 1, features_end: 1, amount: 1, class: 2 })
    );
    // Time, V1..V28, Amount, Class.
    assert_eq!(
        transaction_layout(31),
        Some(TransactionLayout { features_start: 1, features_end: 29, amount: 29, class: 30 })
    );
}
