use quant_lab::common::{
    csv_stop_error, row_message, transaction_class, transaction_row_fields, transaction_rows, CommonError,
};

fn parse_error(e: CommonError) -> String {
    match e {
        CommonError::ParseError(m) => m,
        other => panic!("Expected ParseError, got {:?}", other),
    }
}

#[test]
fn transaction_rows_reads_valid_file() {
    let content = "Time,V1,V2,Amount,Class\n\
                   0,1.5,2.5,100.0,0\n\
                   1,3.0,4.0,200.0,1\n\
                   2,5.5,6.5,300.0,0\n";
    let (rows, stop) = transaction_rows(content.as_bytes());
    assert!(stop.is_none());
    assert_eq!(rows.len(), 3);
    assert_eq!(rows[0], vec!["0", "1.5", "2.5", "100.0", "0"]);

    let first = transaction_row_fields(2, &rows[0]).unwrap();
    let features: Vec<f64> = first.features.iter().map(|f| f.parse::<f64>().unwrap()).collect();
    assert_eq!(features, vec![1.5, 2.5]);
    assert_eq!(first.amount, "100.0");
    assert_eq!(transaction_class(2, &first.class).unwrap(), 0);

    let second = transaction_row_fields(3, &rows[1]).unwrap();
    let features: Vec<f64> = second.features.iter().map(|f| f.parse::<f64>().unwrap()).collect();
    assert_eq!(features, vec![3.0, 4.0]);
    assert_eq!(second.amount.parse::<f64>().unwrap(), 200.0);
    assert_eq!(transaction_class(3, &second.class).unwrap(), 1);
}

#[test]
fn transaction_rows_keeps_malformed_number_for_the_parser() {
    let content = "Time,V1,V2,Amount,Class\n\
                   0,not_a_number,2.5,100.0,0\n";
    let (rows, stop) = transaction_rows(content.as_bytes());
    assert!(stop.is_none());
    let fields = transaction_row_fields(2, &rows[0]).unwrap();
    assert_eq!(fields.features, vec!["not_a_number", "2.5"]);
    assert!(fields.features[0].parse::<f64>().is_err());
}

#[test]
fn transaction_rows_stops_at_unequal_record() {
    let content = "Time,V1,Amount,Class\n0,1.0,5.0,1\n1,2.0\n2,3.0,6.0,0\n";
    let (rows, stop) = transaction_rows(content.as_bytes());
    assert_eq!(rows.len(), 1);
    let message = parse_error(stop.expect("reader error"));
    assert!(message.starts_with("Row 3: "), "{}", message);
    assert!(message.len() > "Row 3: ".len());
}

#[test]
fn transaction_row_fields_rejects_short_rows() {
    let fields = vec!["0".to_string(), "1".to_string()];
    let message = parse_error(transaction_row_fields(7, &fields).err().unwrap());
    assert_eq!(message, "Row 7: insufficient columns (need at least 3)");

    let fields = vec!["0".to_string(), "9.5".to_string(), "1".to_string()];
    let t = transaction_row_fields(2, &fields).unwrap();
    assert!(t.features.is_empty());
    assert_eq!(t.amount, "9.5");
    assert_eq!(t.class, "1");
}

#[test]
fn transaction_class_parses_u8() {
    assert_eq!(transaction_class(2, &"+7".to_string()).unwrap(), 7);
    assert_eq!(transaction_class(2, &"255".to_string()).unwrap(), 255);
    let message = parse_error(transaction_class(4, &"256".to_string()).err().unwrap());
    assert_eq!(message, "Row 4, Class: number too large to fit in target type");
    let message = parse_error(transaction_class(5, &"x".to_string()).err().unwrap());
    assert_eq!(message, "Row 5, Class: invalid digit found in string");
}

#[test]
fn row_messages_carry_the_row_number() {
    assert_eq!(row_message(120, ": ", "bad"), "Row 120: bad");
    assert!(csv_stop_error(4, None).is_none());
    assert_eq!(parse_error(csv_stop_error(4, Some("oops".to_string())).unwrap()), "Row 6: oops");
}
