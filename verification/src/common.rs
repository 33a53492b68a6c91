//! Loading transactions: the records of a CSV file, the column layout of a
//! row, the class label and the errors, each tied to its row number.
use vstd::prelude::*;
use crate::text::{decimal, push_decimal};

verus! {

/// An I/O error of the standard library, carried through unchanged.
#[verifier::external_type_specification]
#[verifier::external_body]
pub struct ExIoError(std::io::Error);

/// Errors that can occur while loading data.
#[derive(Debug)]
pub enum CommonError {
    /// File not found at the specified path.
    FileNotFound(String),
    /// Error parsing CSV data or converting values.
    ParseError(String),
    /// I/O error occurred.
    IoError(std::io::Error),
}

/// Where the fields of one transaction row stand: a leading time column,
/// the features `features_start..features_end`, then the amount, then the
/// class label in the last column.
#[derive(Debug, Clone, Copy, PartialEq, Eq, Structural)]
pub struct TransactionLayout {
    /// Index of the first feature column.
    pub features_start: usize,
    /// One past the index of the last feature column.
    pub features_end: usize,
    /// Index of the amount column.
    pub amount: usize,
    /// Index of the class column.
    pub class: usize,
}

/// The column layout of a row with `num_fields` fields, or `None` when the
/// row has fewer than three fields.
pub fn transaction_layout(num_fields: usize) -> (r: Option<TransactionLayout>)
    ensures
        r is Some <==> num_fields >= 3,
        r matches Some(l) ==> l == (TransactionLayout {
            features_start: 1,
            features_end: (num_fields - 2) as usize,
            amount: (num_fields - 2) as usize,
            class: (num_fields - 1) as usize,
        }),
{
    if num_fields < 3 {
        None
    } else {
        Some(
            TransactionLayout {
                features_start: 1,
                features_end: num_fields - 2,
                amount: num_fields - 2,
                class: num_fields - 1,
            },
        )
    }
}

/// `Row {row}{sep}{detail}`: the form of every loader error about a row.
pub open spec fn row_text(row: nat, sep: Seq<char>, detail: Seq<char>) -> Seq<char> {
    "Row "@ + decimal(row) + sep + detail
}

/// The message for a row with fewer than three fields.
pub open spec fn insufficient_columns_message(row: nat) -> Seq<char> {
    row_text(row, ": "@, "insufficient columns (need at least 3)"@)
}

/// The text `Row {row}{sep}{detail}` (see [`row_text`]).
pub fn row_message(row: u128, sep: &str, detail: &str) -> (r: String)
    ensures
        r@ == row_text(row as nat, sep@, detail@),
{
    let mut s = String::new();
    s.push_str("Row ");
    push_decimal(&mut s, row);
    s.push_str(sep);
    s.push_str(detail);
    s
}

/// The records, as lists of fields, that the csv crate's default reader
/// (first line a header, every record as long as it) yields from `bytes`
/// before its first error, and that error's text if it stopped at one.
pub uninterp spec fn csv_records(bytes: Seq<u8>) -> (Seq<Seq<Seq<char>>>, Option<Seq<char>>);

/// Reads `bytes` with `csv::Reader::from_reader` and collects what its
/// `records()` iterator yields up to the first error. Claimed: the result is
/// [`csv_records`] of the bytes; nothing is claimed of what that is.
#[verifier::external_body]
fn read_csv_records(bytes: &[u8]) -> (r: (Vec<Vec<String>>, Option<String>))
    ensures
        r.deep_view() == csv_records(bytes@),
{
    let mut rows: Vec<Vec<String>> = Vec::new();
    for record in csv::Reader::from_reader(bytes).records() {
        match record {
            Ok(fields) => rows.push(fields.iter().map(String::from).collect()),
            Err(e) => return (rows, Some(e.to_string())),
        }
    }
    (rows, None)
}

/// The error that ends the records: after `n_rows` good records, a reader
/// error `message` is reported for row `n_rows + 2` (the header is row 1).
pub fn csv_stop_error(n_rows: usize, message: Option<String>) -> (r: Option<CommonError>)
    ensures
        r is None <==> message is None,
        message matches Some(m) ==> (r matches Some(CommonError::ParseError(t)) && t@ == row_text(
            (n_rows + 2) as nat,
            ": "@,
            m@,
        )),
{
    match message {
        None => None,
        Some(m) => {
            let row: u128 = n_rows as u128 + 2;
            Some(CommonError::ParseError(row_message(row, ": ", m.as_str())))
        },
    }
}

/// The records of a transactions CSV file held in `bytes`, in order, and the
/// error that stopped the reader early, if any (see [`csv_stop_error`]).
pub fn transaction_rows(bytes: &[u8]) -> (r: (Vec<Vec<String>>, Option<CommonError>))
    ensures
        r.0.deep_view() == csv_records(bytes@).0,
        r.1 is None <==> csv_records(bytes@).1 is None,
        csv_records(bytes@).1 matches Some(m) ==> (r.1 matches Some(CommonError::ParseError(t))
            && t@ == row_text(
            (csv_records(bytes@).0.len() + 2) as nat,
            ": "@,
            m,
        )),
{
    let (rows, message) = read_csv_records(bytes);
    let n_rows = rows.len();
    let stop = csv_stop_error(n_rows, message);
    (rows, stop)
}

/// The text fields of one transaction row: features, amount and class.
pub struct TransactionFields {
    /// The feature fields, in column order.
    pub features: Vec<String>,
    /// The amount field.
    pub amount: String,
    /// The class field.
    pub class: String,
}

/// Splits the fields of row `row` by [`transaction_layout`]; a row with
/// fewer than three fields is an error.
pub fn transaction_row_fields(row: usize, fields: &Vec<String>) -> (r: Result<
    TransactionFields,
    CommonError,
>)
    ensures
        r is Ok <==> fields@.len() >= 3,
        r matches Err(e) ==> (e matches CommonError::ParseError(m) && m@
            == insufficient_columns_message(row as nat)),
        r matches Ok(t) ==> {
            &&& t.features.deep_view() == fields.deep_view().subrange(1, fields@.len() - 2)
            &&& t.amount@ == fields@[fields@.len() - 2]@
            &&& t.class@ == fields@[fields@.len() - 1]@
        },
{
    match transaction_layout(fields.len()) {
        None => Err(
            CommonError::ParseError(
                row_message(row as u128, ": ", "insufficient columns (need at least 3)"),
            ),
        ),
        Some(layout) => {
            let mut features: Vec<String> = Vec::new();
            let mut i: usize = layout.features_start;
            while i < layout.features_end
                invariant
                    layout.features_start == 1,
                    layout.features_end == fields@.len() - 2,
                    1 <= i <= layout.features_end,
                    features@.len() == i - 1,
                    forall|k: int| 0 <= k < i - 1 ==> #[trigger] features@[k]@ == fields@[k + 1]@,
                decreases layout.features_end - i,
            {
                features.push(fields[i].clone());
                i = i + 1;
            }
            assert(features.deep_view() =~= fields.deep_view().subrange(1, fields@.len() - 2));
            Ok(
                TransactionFields {
                    features,
                    amount: fields[layout.amount].clone(),
                    class: fields[layout.class].clone(),
                },
            )
        },
    }
}

/// The value of a string of ASCII decimal digits.
pub open spec fn digits_value(s: Seq<char>) -> int
    decreases s.len(),
{
    if s.len() == 0 {
        0
    } else {
        digits_value(s.drop_last()) * 10 + (s.last() as int - '0' as int)
    }
}

/// `s` without a leading `+`, if it has one.
pub open spec fn unsigned_digits(s: Seq<char>) -> Seq<char> {
    if s.len() > 0 && s[0] == '+' {
        s.drop_first()
    } else {
        s
    }
}

/// `s` is the decimal text of a `u8`: an optional `+` followed by at least
/// one ASCII digit and nothing else, with a value of at most 255.
pub open spec fn is_u8_text(s: Seq<char>) -> bool {
    let d = unsigned_digits(s);
    &&& d.len() > 0
    &&& forall|i: int| 0 <= i < d.len() ==> '0' <= #[trigger] d[i] <= '9'
    &&& digits_value(d) <= 255
}

/// The text of the error that parsing `s` as a `u8` reports.
pub uninterp spec fn u8_parse_error(s: Seq<char>) -> Seq<char>;

/// Parses `s` with `str::parse::<u8>` and renders a failure as text.
/// Claimed, from the documentation of `u8::from_str`: it succeeds exactly on
/// an optional `+` followed by decimal digits whose value fits in a `u8`, and
/// gives that value; the error text is [`u8_parse_error`] of `s`.
#[verifier::external_body]
fn parse_u8(s: &str) -> (r: Result<u8, String>)
    ensures
        r is Ok <==> is_u8_text(s@),
        r matches Ok(v) ==> v == digits_value(unsigned_digits(s@)),
        r matches Err(m) ==> m@ == u8_parse_error(s@),
{
    match s.parse::<u8>() {
        Ok(v) => Ok(v),
        Err(e) => Err(e.to_string()),
    }
}

/// The class label of row `row` from its text field: the field parsed as a
/// `u8`, or `Row {row}, Class: {reason}` when it is not one.
pub fn class_from_parse(row: usize, parsed: Result<u8, String>) -> (r: Result<u8, CommonError>)
    ensures
        parsed matches Ok(v) ==> r == Ok::<u8, CommonError>(v),
        parsed matches Err(m) ==> (r matches Err(CommonError::ParseError(t)) && t@ == row_text(
            row as nat,
            ", Class: "@,
            m@,
        )),
{
    match parsed {
        Ok(v) => Ok(v),
        Err(m) => Err(CommonError::ParseError(row_message(row as u128, ", Class: ", m.as_str()))),
    }
}

/// Parses the class field of row `row` (see [`class_from_parse`]).
pub fn transaction_class(row: usize, field: &String) -> (r: Result<u8, CommonError>)
    ensures
        r is Ok <==> is_u8_text(field@),
        r matches Ok(v) ==> v == digits_value(unsigned_digits(field@)),
        r matches Err(e) ==> (e matches CommonError::ParseError(t) && t@ == row_text(
            row as nat,
            ", Class: "@,
            u8_parse_error(field@),
        )),
{
    class_from_parse(row, parse_u8(field.as_str()))
}

} // verus!
