//! Tests of clock access and segment-file-name parsing.
use kvlog::error::Error;
use kvlog::utils::{extract_id_from_filename, time};

#[test]
fn parses_a_numeric_extension() {
    assert_eq!(extract_id_from_filename("data.123"), Ok(123));
    assert_eq!(extract_id_from_filename("data.0"), Ok(0));
    assert_eq!(extract_id_from_filename("archive.2023.17"), Ok(17));
    assert_eq!(
        extract_id_from_filename("data.340282366920938463463374607431768211455"),
        Ok(u128::MAX)
    );
}

#[test]
fn missing_extension_is_reported() {
    assert_eq!(extract_id_from_filename("data"), Err(Error::MissingExtension));
    assert_eq!(extract_id_from_filename(""), Err(Error::MissingExtension));
    assert_eq!(extract_id_from_filename(".123"), Err(Error::MissingExtension));
}

#[test]
fn non_numeric_extension_is_reported() {
    assert_eq!(extract_id_from_filename("data.12a"), Err(Error::InvalidId));
    assert_eq!(extract_id_from_filename("data.x"), Err(Error::InvalidId));
    assert_eq!(extract_id_from_filename("data."), Err(Error::InvalidId));
    assert_eq!(extract_id_from_filename("data.-1"), Err(Error::InvalidId));
    assert_eq!(extract_id_from_filename("data.1 2"), Err(Error::InvalidId));
}

#[test]
fn oversized_identifier_is_reported() {
    assert_eq!(
        extract_id_from_filename("data.340282366920938463463374607431768211456"),
        Err(Error::InvalidId)
    );
    assert_eq!(
        extract_id_from_filename("data.9999999999999999999999999999999999999999"),
        Err(Error::InvalidId)
    );
}

#[test]
fn clock_reads_nanoseconds_since_the_epoch() {
    let t = time();
    assert!(t > 0);
}
