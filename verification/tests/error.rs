use rain::error::{bail, ErrorType, RainError};

use std::io;

#[test]
fn success_convert_from_io_error() {
    let io_error = io::Error::new(io::ErrorKind::NotFound, "Not found");
    let rain_error: RainError = io_error.into();
    println!("{} {:?} {}", rain_error.message(), rain_error, rain_error.description);
    assert_eq!(rain_error.code, ErrorType::Other);
    assert_eq!(rain_error.description, "Not found".to_string());
}

#[test]
fn io_error_is_kept_as_cause() {
    let rain_error = RainError::from(io::Error::new(io::ErrorKind::PermissionDenied, "locked"));
    let cause = rain_error.cause.expect("the I/O error is the cause");
    assert_eq!(cause.kind(), io::ErrorKind::PermissionDenied);
    assert_eq!(rain_error.description, "locked");
}

#[test]
fn io_error_without_message_is_described_by_its_kind() {
    let rain_error = RainError::from(io::Error::from(io::ErrorKind::NotFound));
    assert_eq!(rain_error.code, ErrorType::Other);
    assert_eq!(rain_error.description, "entity not found");
}

#[test]
fn bail_sets_code_and_description() {
    let error = bail(ErrorType::LineDoesNotExist, "no such line");
    assert_eq!(error.code, ErrorType::LineDoesNotExist);
    assert_eq!(error.description, "no such line");
    assert!(error.cause.is_none());
}

#[test]
fn message_names_code_and_description() {
    let error = bail(ErrorType::TerminalDimensions, "no terminal");
    assert_eq!(error.message(), "Code: TerminalDimensions, Description: no terminal");
    let error = bail(ErrorType::Other, "");
    assert_eq!(error.message(), "Code: Other, Description: ");
    let error = bail(ErrorType::LineDoesNotExist, "x");
    assert_eq!(error.message(), "Code: LineDoesNotExist, Description: x");
}

#[test]
fn error_type_names() {
    assert_eq!(ErrorType::Other.as_str(), "Other");
    assert_eq!(ErrorType::LineDoesNotExist.as_str(), "LineDoesNotExist");
    assert_eq!(ErrorType::TerminalDimensions.as_str(), "TerminalDimensions");
}
