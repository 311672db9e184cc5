//! The key-generation front end: validating the mode, demanding a password
//! in deterministic mode, and parsing the requested size, in that order.

use vstd::prelude::*;
use vstd::string::StrSliceExecFns;
use vstd::string::StringSliceAdditionalSpecFns;
use crate::errors::CryptError;
use crate::size::parse_size;
use crate::size::parse_size_spec;

verus! {

/// The two key-generation modes.
#[derive(Clone, Copy, Debug, PartialEq, Eq, Structural)]
pub enum KeygenMode {
    /// Fresh bytes from the operating system's entropy source.
    Random,
    /// Bytes reproducible from a password alone.
    Deterministic,
}

/// The bytes of the mode token `random`.
pub open spec fn random_token() -> Seq<u8> {
    seq![114u8, 97, 110, 100, 111, 109]
}

/// The bytes of the mode token `deterministic`.
pub open spec fn deterministic_token() -> Seq<u8> {
    seq![100u8, 101, 116, 101, 114, 109, 105, 110, 105, 115, 116, 105, 99]
}

/// Which mode a token names, matched exactly and case-sensitively.
pub open spec fn mode_spec(m: Seq<u8>) -> Option<KeygenMode> {
    if m == random_token() {
        Some(KeygenMode::Random)
    } else if m == deterministic_token() {
        Some(KeygenMode::Deterministic)
    } else {
        None
    }
}

/// A validated key-generation request: the mode and the exact byte count.
#[derive(Clone, Copy, Debug, PartialEq, Eq, Structural)]
pub struct KeygenPlan {
    pub mode: KeygenMode,
    pub size: usize,
}

/// What validating a key-generation request returns: an unknown mode is
/// refused first, then a missing password in deterministic mode, then
/// whatever the size parser refuses; otherwise the plan.
pub open spec fn keygen_request_spec(
    mode: Seq<u8>,
    has_password: bool,
    size_str: Seq<u8>,
) -> Result<KeygenPlan, CryptError> {
    match mode_spec(mode) {
        Option::None => Err(CryptError::InvalidMode),
        Option::Some(m) => if m == KeygenMode::Deterministic && !has_password {
            Err(CryptError::MissingPassword)
        } else {
            match parse_size_spec(size_str) {
                Err(e) => Err(e),
                Ok(n) => Ok(KeygenPlan { mode: m, size: n }),
            }
        },
    }
}

/// Whether two byte buffers hold the same bytes.
fn bytes_eq(a: &Vec<u8>, b: &Vec<u8>) -> (r: bool)
    ensures
        r <==> a@ == b@,
{
    if a.len() != b.len() {
        return false;
    }
    let mut i: usize = 0;
    while i < a.len()
        invariant
            i <= a@.len(),
            a@.len() == b@.len(),
            forall|j: int| 0 <= j < i ==> a@[j] == b@[j],
        decreases a@.len() - i,
    {
        if *a.get(i).unwrap() != *b.get(i).unwrap() {
            return false;
        }
        i = i + 1;
    }
    proof {
        assert(a@ =~= b@);
    }
    true
}

/// Parses a mode token, exactly as `mode_spec` says.
pub fn parse_mode(mode: &str) -> (r: Result<KeygenMode, CryptError>)
    ensures
        match r {
            Ok(m) => mode_spec(mode.spec_bytes()) == Some(m),
            Err(e) => e == CryptError::InvalidMode && mode_spec(mode.spec_bytes()) is None,
        },
{
    let m = mode.as_bytes_vec();
    let random_tok: Vec<u8> = vec![114, 97, 110, 100, 111, 109];
    let deterministic_tok: Vec<u8> = vec![
        100,
        101,
        116,
        101,
        114,
        109,
        105,
        110,
        105,
        115,
        116,
        105,
        99,
    ];
    proof {
        assert(random_tok@ =~= random_token());
        assert(deterministic_tok@ =~= deterministic_token());
    }
    if bytes_eq(&m, &random_tok) {
        Ok(KeygenMode::Random)
    } else if bytes_eq(&m, &deterministic_tok) {
        Ok(KeygenMode::Deterministic)
    } else {
        Err(CryptError::InvalidMode)
    }
}

/// Validates a key-generation request, exactly as `keygen_request_spec`
/// says: the mode must be recognized, deterministic mode must come with a
/// password, and the size string must parse.
pub fn keygen_request(mode: &str, has_password: bool, size_str: &str) -> (r: Result<
    KeygenPlan,
    CryptError,
>)
    ensures
        r == keygen_request_spec(mode.spec_bytes(), has_password, size_str.spec_bytes()),
{
    let m = match parse_mode(mode) {
        Ok(m) => m,
        Err(e) => {
            return Err(e);
        },
    };
    if m == KeygenMode::Deterministic && !has_password {
        return Err(CryptError::MissingPassword);
    }
    match parse_size(size_str) {
        Ok(n) => Ok(KeygenPlan { mode: m, size: n }),
        Err(e) => Err(e),
    }
}

} // verus!
