//! One-time-pad style XOR of an input buffer against a key buffer, with the
//! strict length discipline the operation demands: the key must cover the
//! whole input, and neither buffer may be empty.

use vstd::prelude::*;
use crate::errors::CryptError;

verus! {

/// The byte-by-byte XOR of `input` against the first `input.len()` bytes of
/// `key`.
pub open spec fn xor_seq(input: Seq<u8>, key: Seq<u8>) -> Seq<u8> {
    Seq::new(input.len(), |i: int| input[i] ^ key[i])
}

/// What the XOR transform returns on every pair of buffers: the empty-key,
/// empty-input and short-key refusals, in that order, and otherwise the XOR.
pub open spec fn xor_result(input: Seq<u8>, key: Seq<u8>) -> Result<Seq<u8>, CryptError> {
    if key.len() == 0 {
        Err(CryptError::EmptyKey)
    } else if input.len() == 0 {
        Err(CryptError::EmptyInput)
    } else if key.len() < input.len() {
        Err(CryptError::KeyTooShort)
    } else {
        Ok(xor_seq(input, key))
    }
}

/// Combines `input` with `key` one byte at a time, exactly as `xor_result`
/// says: `Ok(out)` with `out[i] == input[i] ^ key[i]` whenever both buffers
/// are non-empty and the key covers the input, and the matching refusal
/// otherwise.
pub fn xor_bytes(input: &Vec<u8>, key: &Vec<u8>) -> (r: Result<Vec<u8>, CryptError>)
    ensures
        match r {
            Ok(out) => xor_result(input@, key@) == Ok::<Seq<u8>, CryptError>(out@),
            Err(e) => xor_result(input@, key@) == Err::<Seq<u8>, CryptError>(e),
        },
{
    if key.len() == 0 {
        return Err(CryptError::EmptyKey);
    }
    if input.len() == 0 {
        return Err(CryptError::EmptyInput);
    }
    if key.len() < input.len() {
        return Err(CryptError::KeyTooShort);
    }
    let mut out: Vec<u8> = Vec::new();
    let mut i: usize = 0;
    while i < input.len()
        invariant
            i <= input@.len() <= key@.len(),
            out@.len() == i,
            forall|j: int| 0 <= j < i ==> out@[j] == input@[j] ^ key@[j],
        decreases input@.len() - i,
    {
        let b = input[i] ^ key[i];
        out.push(b);
        i = i + 1;
    }
    proof {
        assert(out@ =~= xor_seq(input@, key@));
    }
    Ok(out)
}

/// XOR with one byte of the key is self-inverse.
proof fn lemma_xor_byte_cancel(a: u8, b: u8)
    ensures
        (a ^ b) ^ b == a,
{
    assert((a ^ b) ^ b == a) by (bit_vector);
}

/// The round-trip law: whenever the key covers the input, XOR-ing twice with
/// the same key recovers the input exactly.
pub proof fn lemma_xor_round_trip(input: Seq<u8>, key: Seq<u8>)
    requires
        input.len() <= key.len(),
    ensures
        xor_seq(xor_seq(input, key), key) == input,
{
    assert forall|i: int| 0 <= i < input.len() implies xor_seq(xor_seq(input, key), key)[i]
        == input[i] by {
        lemma_xor_byte_cancel(input[i], key[i]);
    }
    assert(xor_seq(xor_seq(input, key), key) =~= input);
}

/// The round-trip law at the level of the transform itself: on a non-empty
/// input covered by the key, the transform succeeds, and feeding its output
/// back through with the same key succeeds and returns the original input.
pub proof fn lemma_xor_transform_round_trip(input: Seq<u8>, key: Seq<u8>)
    requires
        0 < input.len() <= key.len(),
    ensures
        xor_result(input, key) == Ok::<Seq<u8>, CryptError>(xor_seq(input, key)),
        xor_result(xor_seq(input, key), key) == Ok::<Seq<u8>, CryptError>(input),
{
    lemma_xor_round_trip(input, key);
}

/// Every non-empty key shorter than the input is refused as `KeyTooShort`,
/// down to a key exactly one byte short. (An empty key is refused earlier,
/// as `EmptyKey`.)
pub proof fn lemma_short_key_rejected(input: Seq<u8>, key: Seq<u8>)
    requires
        0 < key.len() < input.len(),
    ensures
        xor_result(input, key) == Err::<Seq<u8>, CryptError>(CryptError::KeyTooShort),
{
}

/// The post-write integrity check of the XOR pipeline: the two lengths the
/// filesystem reports afterwards must agree, else the write is reported as a
/// size mismatch.
pub fn verify_lengths(input_len: u64, output_len: u64) -> (r: Result<(), CryptError>)
    ensures
        r == Ok::<(), CryptError>(()) <==> input_len == output_len,
        r matches Err(e) ==> e == CryptError::SizeMismatch && input_len != output_len,
{
    if input_len == output_len {
        Ok(())
    } else {
        Err(CryptError::SizeMismatch)
    }
}

} // verus!
