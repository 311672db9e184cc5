use crypt::errors::CryptError;
use crypt::size::parse_size;

#[test]
fn parses_plain_bytes() {
    assert_eq!(parse_size("1024b"), Ok(1024));
    assert_eq!(parse_size("5bytes"), Ok(5));
    assert_eq!(parse_size("0b"), Ok(0));
}

#[test]
fn parses_each_unit_multiplier() {
    assert_eq!(parse_size("1kb"), Ok(1024));
    assert_eq!(parse_size("10mb"), Ok(10 * 1024 * 1024));
    assert_eq!(parse_size("1gb"), Ok(1024 * 1024 * 1024));
    assert_eq!(parse_size("3kb"), Ok(3072));
}

#[test]
fn units_are_case_insensitive_and_whitespace_is_trimmed() {
    assert_eq!(parse_size("10KB"), Ok(10240));
    assert_eq!(parse_size("  7Mb \t"), Ok(7 * 1024 * 1024));
    assert_eq!(parse_size(" 2GB "), Ok(2 * 1024 * 1024 * 1024));
    assert_eq!(parse_size("4BYTES"), Ok(4));
}

#[test]
fn missing_magnitude_is_invalid_number() {
    assert_eq!(parse_size(""), Err(CryptError::InvalidNumber));
    assert_eq!(parse_size("   "), Err(CryptError::InvalidNumber));
    assert_eq!(parse_size("abc"), Err(CryptError::InvalidNumber));
    assert_eq!(parse_size("kb10"), Err(CryptError::InvalidNumber));
}

#[test]
fn huge_magnitude_is_invalid_number() {
    assert_eq!(
        parse_size("99999999999999999999999b"),
        Err(CryptError::InvalidNumber)
    );
}

#[test]
fn unrecognized_unit_is_unknown_unit() {
    assert_eq!(parse_size("10xb"), Err(CryptError::UnknownUnit));
    assert_eq!(parse_size("10"), Err(CryptError::UnknownUnit));
    assert_eq!(parse_size("10 kb"), Err(CryptError::UnknownUnit));
    assert_eq!(parse_size("10tb"), Err(CryptError::UnknownUnit));
}

#[test]
fn interleaved_digits_are_part_of_the_unit() {
    // The grammar is strictly digits-then-unit: a digit inside the unit
    // token is not regrouped into the magnitude.
    assert_eq!(parse_size("1k0b"), Err(CryptError::UnknownUnit));
}

#[test]
fn product_overflow_is_size_overflow() {
    assert_eq!(parse_size("99999999999gb"), Err(CryptError::SizeOverflow));
}
