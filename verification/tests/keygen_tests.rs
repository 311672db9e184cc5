use crypt::errors::CryptError;
use crypt::keygen::{keygen_request, parse_mode, KeygenMode, KeygenPlan};

#[test]
fn recognizes_the_two_modes() {
    assert_eq!(parse_mode("random"), Ok(KeygenMode::Random));
    assert_eq!(parse_mode("deterministic"), Ok(KeygenMode::Deterministic));
}

#[test]
fn mode_matching_is_exact() {
    assert_eq!(parse_mode("Random"), Err(CryptError::InvalidMode));
    assert_eq!(parse_mode("rand"), Err(CryptError::InvalidMode));
    assert_eq!(parse_mode(""), Err(CryptError::InvalidMode));
    assert_eq!(parse_mode("deterministic "), Err(CryptError::InvalidMode));
}

#[test]
fn deterministic_mode_demands_a_password() {
    assert_eq!(
        keygen_request("deterministic", false, "1kb"),
        Err(CryptError::MissingPassword)
    );
    assert_eq!(
        keygen_request("deterministic", true, "1kb"),
        Ok(KeygenPlan {
            mode: KeygenMode::Deterministic,
            size: 1024,
        })
    );
}

#[test]
fn random_mode_needs_no_password() {
    assert_eq!(
        keygen_request("random", false, "1024b"),
        Ok(KeygenPlan {
            mode: KeygenMode::Random,
            size: 1024,
        })
    );
}

#[test]
fn mode_is_checked_before_the_size() {
    assert_eq!(
        keygen_request("sideways", false, "not a size"),
        Err(CryptError::InvalidMode)
    );
}

#[test]
fn size_errors_pass_through() {
    assert_eq!(
        keygen_request("random", false, "12parsecs"),
        Err(CryptError::UnknownUnit)
    );
    assert_eq!(
        keygen_request("random", false, "parsecs"),
        Err(CryptError::InvalidNumber)
    );
}
