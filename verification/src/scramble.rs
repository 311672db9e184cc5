//! Byte scrambling: a uniformly random permutation of a buffer's bytes, for
//! obfuscation of byte order rather than secrecy, and the rule that picks
//! the destination of the permuted bytes.

use vstd::prelude::*;
use rand::seq::SliceRandom;
use crate::errors::CryptError;

verus! {

/// Where the scrambled bytes go: a freshly created file, or back over the
/// input file in place.
#[derive(Clone, Copy, Debug, PartialEq, Eq, Structural)]
pub enum ScrambleDest {
    NewFile,
    InPlace,
}

/// The destination rule: a named output file wins and must not already
/// exist; with no output file, overwriting in place must have been asked
/// for explicitly.
pub open spec fn destination_spec(has_output_file: bool, output_exists: bool, overwrite: bool) -> Result<
    ScrambleDest,
    CryptError,
> {
    if has_output_file {
        if output_exists {
            Err(CryptError::AlreadyExists)
        } else {
            Ok(ScrambleDest::NewFile)
        }
    } else if overwrite {
        Ok(ScrambleDest::InPlace)
    } else {
        Err(CryptError::NoDestination)
    }
}

/// Picks the destination of a scramble, exactly as `destination_spec` says.
pub fn scramble_destination(has_output_file: bool, output_exists: bool, overwrite: bool) -> (r:
    Result<ScrambleDest, CryptError>)
    ensures
        r == destination_spec(has_output_file, output_exists, overwrite),
{
    if has_output_file {
        if output_exists {
            Err(CryptError::AlreadyExists)
        } else {
            Ok(ScrambleDest::NewFile)
        }
    } else if overwrite {
        Ok(ScrambleDest::InPlace)
    } else {
        Err(CryptError::NoDestination)
    }
}

/// Relies on rand::seq::SliceRandom::shuffle driven by rand::thread_rng: a
/// Fisher-Yates shuffle that only swaps elements of the slice in place, so
/// the multiset of bytes and the length are unchanged whatever randomness
/// drives it.
#[verifier::external_body]
fn shuffle_in_place(data: &mut Vec<u8>)
    ensures
        final(data)@.len() == old(data)@.len(),
        final(data)@.to_multiset() == old(data)@.to_multiset(),
{
    let mut rng = rand::thread_rng();
    data.as_mut_slice().shuffle(&mut rng);
}

/// Applies a uniformly random permutation to the buffer in place. An empty
/// buffer is refused and left untouched; otherwise the multiset of bytes and
/// the length are preserved exactly.
pub fn scramble_bytes(data: &mut Vec<u8>) -> (r: Result<(), CryptError>)
    ensures
        match r {
            Ok(()) => old(data)@.len() > 0
                && final(data)@.len() == old(data)@.len()
                && final(data)@.to_multiset() == old(data)@.to_multiset(),
            Err(e) => e == CryptError::EmptyInput
                && old(data)@.len() == 0
                && final(data)@ == old(data)@,
        },
{
    if data.len() == 0 {
        return Err(CryptError::EmptyInput);
    }
    shuffle_in_place(data);
    Ok(())
}

} // verus!
