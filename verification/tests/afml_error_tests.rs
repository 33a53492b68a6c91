use quant_lab::afml::error::BacktestError;

#[test]
fn test_error_display() {
    let e = BacktestError::InvalidConfig("bad".to_string());
    assert_eq!(e.to_string(), "invalid config: bad");
}

#[test]
fn afml_error_messages_per_kind() {
    assert_eq!(
        BacktestError::InsufficientData("x".to_string()).to_string(),
        "insufficient data: x"
    );
    assert_eq!(
        BacktestError::DimensionMismatch("y".to_string()).to_string(),
        "dimension mismatch: y"
    );
    assert_eq!(BacktestError::InvalidEvent("z".to_string()).to_string(), "invalid event: z");
    assert_eq!(BacktestError::InvalidInput("w".to_string()).to_string(), "invalid input: w");
}
