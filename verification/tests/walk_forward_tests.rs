use quant_lab::afml::error::BacktestError;
use quant_lab::afml::walk_forward::{CrossValidator, WalkForward, WalkForwardConfig};

#[test]
fn test_walk_forward_rolling_splits() {
    let config = WalkForwardConfig::rolling(60, 20, 20);
    let wf = WalkForward::new(config);
    let splits = wf.generate_splits(100).unwrap();

    // Should have 2 splits: [0-60,60-80], [20-80,80-100]
    assert_eq!(splits.len(), 2);

    assert_eq!(splits[0].train_indices, (0..60).collect::<Vec<_>>());
    assert_eq!(splits[0].test_indices, (60..80).collect::<Vec<_>>());
    assert_eq!(splits[0].window_id, 0);

    assert_eq!(splits[1].train_indices, (20..80).collect::<Vec<_>>());
    assert_eq!(splits[1].test_indices, (80..100).collect::<Vec<_>>());
    assert_eq!(splits[1].window_id, 1);
}

#[test]
fn test_walk_forward_anchored_splits() {
    let config = WalkForwardConfig::anchored(60, 20, 20);
    let wf = WalkForward::new(config);
    let splits = wf.generate_splits(100).unwrap();

    // Should have 2 splits: [0-60,60-80], [0-80,80-100]
    assert_eq!(splits.len(), 2);

    assert_eq!(splits[0].train_indices, (0..60).collect::<Vec<_>>());
    assert_eq!(splits[0].test_indices, (60..80).collect::<Vec<_>>());

    // Second split (training expands)
    assert_eq!(splits[1].train_indices, (0..80).collect::<Vec<_>>());
    assert_eq!(splits[1].test_indices, (80..100).collect::<Vec<_>>());
}

#[test]
fn test_walk_forward_insufficient_data() {
    let config = WalkForwardConfig::rolling(60, 20, 20);
    let wf = WalkForward::new(config);
    let result = wf.generate_splits(50);
    assert!(result.is_err());
}

#[test]
fn test_walk_forward_via_trait() {
    let config = WalkForwardConfig::rolling(60, 20, 20);
    let wf = WalkForward::new(config);
    let splits = wf.splits(0, 100);
    assert_eq!(splits.len(), 2);
}

#[test]
fn walk_forward_insufficient_data_message() {
    let wf = WalkForward::new(WalkForwardConfig::rolling(60, 20, 20));
    match wf.generate_splits(50) {
        Err(BacktestError::InsufficientData(m)) => assert_eq!(m, "Need at least 80 bars, got 50"),
        other => panic!("unexpected result {other:?}"),
    }
}

#[test]
fn walk_forward_invalid_config_errors() {
    let cases = [
        (WalkForwardConfig::rolling(0, 20, 20), "in_sample_bars must be positive"),
        (WalkForwardConfig::rolling(60, 0, 20), "out_of_sample_bars must be positive"),
        (WalkForwardConfig::anchored(60, 20, 0), "step_size must be positive"),
    ];
    for (config, expected) in cases {
        match config.validate() {
            Err(BacktestError::InvalidConfig(m)) => assert_eq!(m, expected),
            other => panic!("unexpected validation {other:?}"),
        }
        match WalkForward::new(config).generate_splits(1000) {
            Err(BacktestError::InvalidConfig(m)) => assert_eq!(m, expected),
            other => panic!("unexpected result {other:?}"),
        }
    }
    assert!(WalkForwardConfig::rolling(1, 1, 1).validate().is_ok());
}

#[test]
fn walk_forward_window_count_and_ordering() {
    // (103 - 50 - 10) / 7 + 1 = 7 windows.
    let wf = WalkForward::new(WalkForwardConfig::rolling(50, 10, 7));
    let splits = wf.generate_splits(103).unwrap();
    assert_eq!(splits.len(), 7);
    for (k, s) in splits.iter().enumerate() {
        assert_eq!(s.window_id, k);
        assert_eq!(s.train_indices.len(), 50);
        assert_eq!(s.test_indices.len(), 10);
        assert_eq!(s.test_indices[0], 50 + 7 * k);
        assert!(s.train_indices.iter().max() < s.test_indices.iter().min());
        assert!(*s.test_indices.last().unwrap() < 103);
    }
    // Exactly enough bars for one window.
    let one = WalkForward::new(WalkForwardConfig::anchored(5, 5, 100)).generate_splits(10).unwrap();
    assert_eq!(one.len(), 1);
    assert_eq!(one[0].train_indices, (0..5).collect::<Vec<_>>());
}

#[test]
fn walk_forward_anchored_expands_by_step() {
    let wf = WalkForward::new(WalkForwardConfig::anchored(10, 5, 3));
    let splits = wf.generate_splits(30).unwrap();
    // (30 - 15) / 3 + 1 = 6 windows.
    assert_eq!(splits.len(), 6);
    for (k, s) in splits.iter().enumerate() {
        assert_eq!(s.train_indices, (0..10 + 3 * k).collect::<Vec<_>>());
        assert_eq!(s.test_indices, (10 + 3 * k..15 + 3 * k).collect::<Vec<_>>());
    }
}

#[test]
fn walk_forward_trait_empty_on_failure() {
    let wf = WalkForward::new(WalkForwardConfig::rolling(60, 20, 0));
    assert!(wf.splits(0, 1000).is_empty());
    let wf = WalkForward::new(WalkForwardConfig::rolling(60, 20, 20));
    assert!(wf.splits(0, 79).is_empty());
}

#[test]
fn walk_forward_huge_step_single_window() {
    let wf = WalkForward::new(WalkForwardConfig::rolling(2, 2, usize::MAX));
    let splits = wf.generate_splits(10).unwrap();
    assert_eq!(splits.len(), 1);
}
