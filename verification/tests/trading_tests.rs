use quant_lab::trading::error::BacktestError;
use quant_lab::trading::signal::{round_trips, Position, RoundTrip, Signal, Transition};
use quant_lab::trading::strategy::{sma_window_start, BuyAndHold, SmaCrossover, SmaRelation};

#[test]
fn test_signal_types() {
    let signals = [Signal::Buy, Signal::Sell, Signal::Hold];
    assert_eq!(signals.len(), 3);
    assert_ne!(Signal::Buy, Signal::Sell);
    assert_ne!(Signal::Sell, Signal::Hold);
    assert_ne!(Signal::Buy, Signal::Hold);
}

#[test]
fn test_position_types() {
    assert!(Position::Long.is_exposed());
    assert!(Position::Short.is_exposed());
    assert!(Position::Flat.is_flat());
    assert!(!Position::Long.is_flat());
    assert!(!Position::Short.is_flat());
}

#[test]
fn test_sma_crossover_new_valid() {
    let s = SmaCrossover::new(10, 30).unwrap();
    assert_eq!(s.short_period(), 10);
    assert_eq!(s.long_period(), 30);
    assert_eq!(s.name(), "SMA Crossover");
}

#[test]
fn test_sma_crossover_new_invalid() {
    let err = SmaCrossover::new(30, 10).unwrap_err();
    assert!(matches!(err, BacktestError::InvalidParams(_)));
}

#[test]
fn test_sma_crossover_new_zero() {
    let err = SmaCrossover::new(0, 30).unwrap_err();
    assert!(matches!(err, BacktestError::InvalidParams(_)));
}

#[test]
fn test_buy_and_hold_first_bar() {
    let s = BuyAndHold;
    assert_eq!(s.signal_at(0), Signal::Buy);
    assert_eq!(s.name(), "Buy and Hold");
}

#[test]
fn test_buy_and_hold_subsequent() {
    let s = BuyAndHold;
    assert_eq!(s.signal_at(1), Signal::Hold);
    assert_eq!(s.signal_at(2), Signal::Hold);
}

#[test]
fn sma_crossover_error_messages() {
    let e = SmaCrossover::new(30, 10).unwrap_err();
    match &e {
        BacktestError::InvalidParams(m) => {
            assert_eq!(m, "short_period (30) must be strictly less than long_period (10)")
        }
        _ => panic!("wrong kind"),
    }
    assert_eq!(
        e.to_string(),
        "Invalid strategy parameters: short_period (30) must be strictly less than long_period (10)"
    );
    let e = SmaCrossover::new(5, 0).unwrap_err();
    assert_eq!(e.to_string(), "Invalid strategy parameters: periods must be at least 1");
    assert!(SmaCrossover::new(7, 7).is_err());
    let e = BacktestError::InsufficientData { required: 1, actual: 0 };
    assert_eq!(e.to_string(), "Insufficient data: need at least 1 bars, got 0");
    let e = BacktestError::InvalidConfig("initial_capital must be positive".to_string());
    assert_eq!(e.to_string(), "Invalid configuration: initial_capital must be positive");
}

#[test]
fn sma_crossover_signals_from_relations() {
    let s = SmaCrossover::new(2, 4).unwrap();
    // Golden cross at bar 4: averages equal at bar 3, short above at bar 4.
    assert_eq!(s.crossover_signal(4, SmaRelation::Equal, SmaRelation::Above), Signal::Buy);
    // Death cross.
    assert_eq!(s.crossover_signal(4, SmaRelation::Equal, SmaRelation::Below), Signal::Sell);
    assert_eq!(s.crossover_signal(4, SmaRelation::Above, SmaRelation::Below), Signal::Sell);
    // No crossing.
    assert_eq!(s.crossover_signal(4, SmaRelation::Equal, SmaRelation::Equal), Signal::Hold);
    assert_eq!(s.crossover_signal(4, SmaRelation::Above, SmaRelation::Above), Signal::Hold);
    assert_eq!(s.crossover_signal(4, SmaRelation::Unordered, SmaRelation::Above), Signal::Hold);
    // Not enough history.
    assert_eq!(s.crossover_signal(1, SmaRelation::Below, SmaRelation::Above), Signal::Hold);
    assert_eq!(s.crossover_signal(3, SmaRelation::Below, SmaRelation::Above), Signal::Hold);
}

#[test]
fn sma_window_starts() {
    assert_eq!(sma_window_start(3, 4), Some(0));
    assert_eq!(sma_window_start(4, 2), Some(3));
    assert_eq!(sma_window_start(2, 4), None);
    assert_eq!(sma_window_start(0, 1), Some(0));
    assert_eq!(sma_window_start(usize::MAX, 1), Some(usize::MAX));
}

#[test]
fn long_only_transitions() {
    assert_eq!(Position::Flat.apply(Signal::Buy), (Position::Long, Transition::Enter));
    assert_eq!(Position::Long.apply(Signal::Sell), (Position::Flat, Transition::Exit));
    assert_eq!(Position::Long.apply(Signal::Buy), (Position::Long, Transition::Stay));
    assert_eq!(Position::Flat.apply(Signal::Sell), (Position::Flat, Transition::Stay));
    assert_eq!(Position::Flat.apply(Signal::Hold), (Position::Flat, Transition::Stay));
    assert_eq!(Position::Long.apply(Signal::Hold), (Position::Long, Transition::Stay));
}

#[test]
fn long_only_round_trips_alternate() {
    // Buy on even bars, sell on odd ones, over ten bars.
    let mut p = Position::Flat;
    let (mut enters, mut exits) = (0, 0);
    for i in 0..10 {
        let signal = if i % 2 == 0 { Signal::Buy } else { Signal::Sell };
        let (next, t) = p.apply(signal);
        match t {
            Transition::Enter => enters += 1,
            Transition::Exit => exits += 1,
            Transition::Stay => {}
        }
        assert_ne!(next, Position::Short);
        p = next;
    }
    assert_eq!(enters, 5);
    assert_eq!(exits, 5);
    assert_eq!(p, Position::Flat);
}

#[test]
fn round_trips_pair_entries_with_following_exits() {
    let (buy, sell, hold) = (Signal::Buy, Signal::Sell, Signal::Hold);
    let signals = vec![sell, buy, buy, hold, sell, sell, buy, hold];
    assert_eq!(
        round_trips(&signals),
        vec![RoundTrip { entry: 1, exit: Some(4) }, RoundTrip { entry: 6, exit: None }]
    );
    assert!(round_trips(&vec![hold, sell]).is_empty());
    assert_eq!(round_trips(&vec![buy, sell]), vec![RoundTrip { entry: 0, exit: Some(1) }]);
    assert_eq!(round_trips(&vec![hold, buy]), vec![RoundTrip { entry: 1, exit: None }]);
}
