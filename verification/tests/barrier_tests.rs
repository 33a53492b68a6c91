use quant_lab::afml::backtest::{entry_indices, entry_position, fold_trades, index_bounds, step_entries};
use quant_lab::afml::error::BacktestError;
use quant_lab::afml::triple_barrier::{check_entry, check_prices, nonpositive_entry_price};
use quant_lab::afml::sizers::EqualBetSizer;
use quant_lab::afml::triple_barrier::{
    barrier_horizon, first_barrier_exit, BarrierExit, BarrierTouch, TripleBarrierLabel,
};

use BarrierTouch::{Inside, Lower, Upper};

#[test]
fn barrier_upper_touched_first() {
    // Prices 100, 101, 103, 102.5 with +/-2% barriers around 100.
    let touches = [Inside, Inside, Upper, Upper];
    let exit = first_barrier_exit(&touches, 0, 5);
    assert_eq!(
        exit,
        BarrierExit { exit_index: 2, label: TripleBarrierLabel::Upper, holding_period: 2 }
    );
}

#[test]
fn barrier_lower_touched_first() {
    let touches = [Inside, Inside, Lower, Upper];
    let exit = first_barrier_exit(&touches, 0, 5);
    assert_eq!(exit.label, TripleBarrierLabel::Lower);
    assert_eq!(exit.exit_index, 2);
}

#[test]
fn barrier_time_exit_at_end_of_data() {
    let touches = [Inside; 5];
    let exit = first_barrier_exit(&touches, 0, 5);
    assert_eq!(
        exit,
        BarrierExit { exit_index: 4, label: TripleBarrierLabel::Time, holding_period: 4 }
    );
}

#[test]
fn barrier_time_exit_at_time_barrier() {
    // A touch after the time barrier does not count.
    let touches = [Inside, Inside, Inside, Inside, Upper];
    let exit = first_barrier_exit(&touches, 1, 2);
    assert_eq!(
        exit,
        BarrierExit { exit_index: 3, label: TripleBarrierLabel::Time, holding_period: 2 }
    );
    // The entry bar itself is never an exit.
    let touches = [Upper, Lower];
    let exit = first_barrier_exit(&touches, 0, 3);
    assert_eq!(exit.exit_index, 1);
    assert_eq!(exit.label, TripleBarrierLabel::Lower);
    // Entered on the last bar: leaves at once.
    let exit = first_barrier_exit(&touches, 1, 3);
    assert_eq!(
        exit,
        BarrierExit { exit_index: 1, label: TripleBarrierLabel::Time, holding_period: 0 }
    );
}

#[test]
fn barrier_horizons() {
    assert_eq!(barrier_horizon(0, 5, 4), 3);
    assert_eq!(barrier_horizon(2, 5, 100), 7);
    assert_eq!(barrier_horizon(3, usize::MAX, 10), 9);
}

#[test]
fn labels_as_numbers() {
    assert_eq!(TripleBarrierLabel::Upper.to_ternary(), 1);
    assert_eq!(TripleBarrierLabel::Time.to_ternary(), 0);
    assert_eq!(TripleBarrierLabel::Lower.to_ternary(), -1);
    assert_eq!(TripleBarrierLabel::Upper.to_binary(false), 1);
    assert_eq!(TripleBarrierLabel::Lower.to_binary(true), 0);
    assert_eq!(TripleBarrierLabel::Time.to_binary(true), 1);
    assert_eq!(TripleBarrierLabel::Time.to_binary(false), 0);
}

#[test]
fn pipeline_entry_indices() {
    // 100 prices, entry every 3 bars, time barrier 5: bars 0, 3, ..., 96.
    let e = entry_indices(100, 3, 5);
    assert_eq!(e, (0..97).step_by(3).collect::<Vec<_>>());
    // The last bar is never an entry when the time barrier is positive.
    assert_eq!(entry_indices(10, 3, 1), vec![0, 3, 6]);
    assert_eq!(entry_indices(10, 1, 1), (0..9).collect::<Vec<_>>());
    // With no time barrier the last bar is allowed.
    assert_eq!(entry_indices(10, 3, 0), vec![0, 3, 6, 9]);
    assert!(entry_indices(0, 2, 1).is_empty());
}

#[test]
fn generic_entry_schedule() {
    let train: Vec<usize> = (20..40).collect();
    assert_eq!(step_entries(&train, 5), vec![20, 25, 30, 35]);
    assert_eq!(step_entries(&train, 1), train);
    assert_eq!(step_entries(&train, 7), vec![20, 27, 34]);
    assert!(step_entries(&[], 3).is_empty());
    let entries = vec![20, 25, 30, 25];
    assert_eq!(entry_position(&entries, 25), Some(1));
    assert_eq!(entry_position(&entries, 21), None);
}

#[test]
fn equal_bet_sizer_positions() {
    assert_eq!(EqualBetSizer::new(4).n_positions, 4);
    assert_eq!(EqualBetSizer::new(0).n_positions, 1);
}

#[test]
fn fold_trades_keep_labelled_nonzero_entries() {
    let entries = vec![10, 12, 14, 12];
    let labels = vec![1, 0, -1];
    let tests = vec![9, 10, 11, 12, 14, 16];
    assert_eq!(fold_trades(&entries, &labels, &tests), vec![(10, 1), (14, -1)]);
    // An entry beyond the labels is not traded.
    assert_eq!(fold_trades(&[5, 6], &[1], &[6, 5]), vec![(5, 1)]);
    assert!(fold_trades(&[], &[], &[1, 2]).is_empty());
}

#[test]
fn index_bounds_first_and_past_last() {
    assert_eq!(index_bounds(&[3, 4, 5]), (3, 6));
    assert_eq!(index_bounds(&[7]), (7, 8));
    assert_eq!(index_bounds(&[]), (0, 1));
}

#[test]
fn entry_checks_report_the_entry() {
    assert!(check_entry(4, 5, true).is_ok());
    match check_entry(5, 5, true) {
        Err(BacktestError::InvalidEvent(m)) => assert_eq!(m, "entry index 5 out of bounds (prices len 5)"),
        other => panic!("unexpected {:?}", other),
    }
    match check_entry(12, 3, false) {
        Err(BacktestError::InvalidEvent(m)) => assert_eq!(m, "entry index 12 out of bounds"),
        other => panic!("unexpected {:?}", other),
    }
    match check_prices(0) {
        Err(BacktestError::InsufficientData(m)) => assert_eq!(m, "prices cannot be empty"),
        other => panic!("unexpected {:?}", other),
    }
    assert!(check_prices(1).is_ok());
    match nonpositive_entry_price(30) {
        BacktestError::InvalidEvent(m) => assert_eq!(m, "entry price at index 30 must be positive"),
        other => panic!("unexpected {:?}", other),
    }
}
