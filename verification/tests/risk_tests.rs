use quant_lab::risk::{longest_drawdown_run, recovery_time, ReturnsError};
use quant_lab::text::push_decimal;

#[test]
fn drawdown_duration_and_recovery() {
    // Prices 100, 110, 90, 95, 120: drawdowns 0, 0, <0, <0, 0.
    let below = [false, false, true, true, false];
    let at_peak = [true, true, false, false, true];
    assert_eq!(longest_drawdown_run(&below), 2);
    // Trough at bar 2; new high at bar 4.
    assert_eq!(recovery_time(&at_peak, 2), Some(2));
    // No recovery.
    assert_eq!(recovery_time(&[true, false, false], 1), None);
    assert_eq!(longest_drawdown_run(&[]), 0);
    assert_eq!(longest_drawdown_run(&[true, false, true, true, true, false, true]), 3);
}

#[test]
fn returns_error_messages() {
    let e = ReturnsError::InsufficientData { required: 2, actual: 1 };
    assert_eq!(e.to_string(), "Insufficient data: need at least 2 points, got 1");
    let e = ReturnsError::InvalidParam("window must be positive".to_string());
    assert_eq!(e.to_string(), "Invalid parameter: window must be positive");
}

#[test]
fn decimal_rendering() {
    let mut s = String::from("n=");
    push_decimal(&mut s, 0);
    s.push(',');
    push_decimal(&mut s, 1234567890);
    s.push(',');
    push_decimal(&mut s, u128::MAX);
    assert_eq!(s, format!("n=0,1234567890,{}", u128::MAX));
}
