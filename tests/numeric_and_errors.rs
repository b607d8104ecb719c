use balance_history::errors::{Error, ErrorKind};
use balance_history::history::HistoryError;
use balance_history::numeric::{parse_i128, parse_u128, parse_u64, NumericError};
use balance_history::types::Block;

#[test]
fn parses_plain_decimals() {
    assert_eq!(parse_u128("0"), Ok(0));
    assert_eq!(parse_u128("007"), Ok(7));
    assert_eq!(parse_u128("1234567890123456789012345"), Ok(1234567890123456789012345));
    assert_eq!(parse_u64("18446744073709551615"), Ok(u64::MAX));
}

#[test]
fn parses_largest_u128() {
    assert_eq!(parse_u128("340282366920938463463374607431768211455"), Ok(u128::MAX));
    assert_eq!(parse_u128("340282366920938463463374607431768211456"), Err(NumericError::OutOfRange));
}

#[test]
fn rejects_what_is_not_a_number() {
    assert_eq!(parse_u128(""), Err(NumericError::NotANumber));
    assert_eq!(parse_u128("-5"), Err(NumericError::NotANumber));
    assert_eq!(parse_u128("1.5"), Err(NumericError::NotANumber));
    assert_eq!(parse_u128(" 1"), Err(NumericError::NotANumber));
    // A bad character after an overflowing prefix is still not a number.
    assert_eq!(parse_u128("999999999999999999999999999999999999999999x"), Err(NumericError::NotANumber));
}

#[test]
fn u64_out_of_range() {
    assert_eq!(parse_u64("18446744073709551616"), Err(NumericError::OutOfRange));
}

#[test]
fn block_from_stored_text() {
    assert_eq!(
        Block::from_db_values("1650000000000000000", "65000000"),
        Ok(Block { timestamp: 1650000000000000000, height: 65000000 })
    );
    assert_eq!(Block::from_db_values("abc", "1"), Err(NumericError::NotANumber));
    assert_eq!(Block::from_db_values("1", "18446744073709551616"), Err(NumericError::OutOfRange));
}

#[test]
fn error_codes_and_messages() {
    let e = Error::from_error_kind(ErrorKind::DBError("down".to_string()));
    assert_eq!((e.code, e.retriable, e.message.as_str()), (500, true, "DB Error: down"));
    let e = Error::from_error_kind(ErrorKind::InvalidInput("bad".to_string()));
    assert_eq!((e.code, e.retriable, e.message.as_str()), (400, false, "Invalid Input: bad"));
    let e = Error::from_error_kind(ErrorKind::InternalError("oops".to_string()));
    assert_eq!((e.code, e.retriable, e.message.as_str()), (500, true, "Internal Error: oops"));
    let e = Error::from_error_kind(ErrorKind::NotFound("none".to_string()));
    assert_eq!((e.code, e.retriable, e.message.as_str()), (404, false, "Not Found: none"));
    let e = Error::from_error_kind(ErrorKind::DataIntegrity("bad".to_string()));
    assert_eq!((e.code, e.retriable, e.message.as_str()), (500, false, "Data Integrity Error: bad"));
    let e = Error::from_error_kind(ErrorKind::NotImplemented("x".to_string()));
    assert_eq!(
        (e.code, e.retriable, e.message.as_str()),
        (500, true, "Sorry! Please wait a bit, we are working on that: x")
    );
}

#[test]
fn error_text() {
    let e = Error::from_error_kind(ErrorKind::DBError("down".to_string()));
    assert_eq!(e.to_text(), "Error #500 (retriable): DB Error: down");
    let e = Error::from_error_kind(ErrorKind::InvalidInput("bad".to_string()));
    assert_eq!(e.to_text(), "Error #400: Invalid Input: bad");
    let e = Error { code: 7, message: "m".to_string(), retriable: false };
    assert_eq!(e.to_text(), "Error #7: m");
}

#[test]
fn history_errors_are_internal_faults() {
    let a = "alice".to_string();
    let c = "token.near".to_string();
    match HistoryError::NegativeBalance.to_error_kind(&a, &c) {
        ErrorKind::DataIntegrity(m) => {
            assert_eq!(m, "Balance could not be negative: account alice, contract token.near")
        }
        other => panic!("unexpected {:?}", other),
    }
    match HistoryError::Reconciliation.to_error_kind(&a, &c) {
        ErrorKind::DataIntegrity(m) => {
            assert_eq!(m, "We have found the money from nowhere for account alice, contract token.near")
        }
        other => panic!("unexpected {:?}", other),
    }
    match NumericError::OutOfRange.to_error_kind() {
        ErrorKind::DataIntegrity(m) => assert_eq!(m, "stored value is out of range"),
        other => panic!("unexpected {:?}", other),
    }
}

#[test]
fn parses_signed_decimals() {
    assert_eq!(parse_i128("-40"), Ok(-40));
    assert_eq!(parse_i128("40"), Ok(40));
    assert_eq!(parse_i128("-170141183460469231731687303715884105728"), Ok(i128::MIN));
    assert_eq!(parse_i128("170141183460469231731687303715884105727"), Ok(i128::MAX));
    assert_eq!(parse_i128("170141183460469231731687303715884105728"), Err(NumericError::OutOfRange));
    assert_eq!(parse_i128("-170141183460469231731687303715884105729"), Err(NumericError::OutOfRange));
    assert_eq!(parse_i128("-"), Err(NumericError::NotANumber));
    assert_eq!(parse_i128("--1"), Err(NumericError::NotANumber));
    assert_eq!(parse_i128(""), Err(NumericError::NotANumber));
}
