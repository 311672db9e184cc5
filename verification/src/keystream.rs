//! The deterministic key-material generator: a 32-byte key derived from the
//! password by Argon2id under a fixed salt, feeding both a ChaCha20 stream
//! and an AES-256 keystream in counter mode under a fixed nonce; the output
//! is the byte-by-byte XOR of the two streams. Everything is a function of
//! the password and the requested size alone, which is the point: the same
//! password always regenerates the same key material.
//!
//! The salt and the nonce are embedded constants, not random: determinism
//! from the password alone is bought at the price of offering no protection
//! against precomputed dictionaries shared across deployments.

use vstd::prelude::*;
use rand::RngCore;
use rand::SeedableRng;
use ctr::cipher::KeyIvInit;
use ctr::cipher::StreamCipher;
use zeroize::Zeroize;

verus! {

/// Argon2id memory cost, in KiB: 64 MiB.
pub const ARGON2_MEMORY_COST: u32 = 65536;

/// Argon2id time cost: three iterations.
pub const ARGON2_TIME_COST: u32 = 3;

/// Argon2id degree of parallelism: one lane.
pub const ARGON2_PARALLELISM: u32 = 1;

/// The fixed key-derivation salt, the bytes of `your_salt_here`.
pub open spec fn salt_spec() -> Seq<u8> {
    seq![121u8, 111, 117, 114, 95, 115, 97, 108, 116, 95, 104, 101, 114, 101]
}

/// The fixed counter-mode initialization vector.
pub open spec fn iv_spec() -> Seq<u8> {
    seq![12u8, 85, 240, 66, 171, 19, 55, 129, 200, 33, 147, 89, 78, 123, 211, 34]
}

/// The 32-byte key that Argon2id derives from a password, salt and cost
/// parameters; a function of nothing else.
pub uninterp spec fn argon2id_key32(
    password: Seq<u8>,
    salt: Seq<u8>,
    mem_cost: u32,
    time_cost: u32,
    parallelism: u32,
) -> Seq<u8>;

/// Byte `i` of the ChaCha20 generator's stream under the given 32-byte seed.
pub uninterp spec fn chacha20_byte(seed: Seq<u8>, i: int) -> u8;

/// Byte `i` of the AES-256 counter-mode keystream under the given 32-byte
/// key and 16-byte initialization vector.
pub uninterp spec fn aes256_ctr_byte(key: Seq<u8>, iv: Seq<u8>, i: int) -> u8;

/// Relies on argon2::Argon2::hash_password_into (algorithm Argon2id, version
/// 0x13, 32-byte output, parameters from argon2::Params::new): the derived
/// key is a function of password, salt and cost parameters alone, and the
/// bounds required here mirror the call's own input checks exactly, so every
/// error path of the call is ruled out.
#[verifier::external_body]
fn argon2id_derive(
    password: &Vec<u8>,
    salt: &Vec<u8>,
    mem_cost: u32,
    time_cost: u32,
    parallelism: u32,
) -> (r: [u8; 32])
    requires
        password@.len() <= 0xFFFF_FFFF,
        8 <= salt@.len() <= 0xFFFF_FFFF,
        8 <= mem_cost,
        parallelism * 8 <= mem_cost,
        1 <= time_cost,
        1 <= parallelism <= 0xFF_FFFF,
    ensures
        r@ == argon2id_key32(password@, salt@, mem_cost, time_cost, parallelism),
{
    let params = argon2::Params::new(mem_cost, time_cost, parallelism, Some(32))
        .expect("the caller bounds the cost parameters");
    let a2 = argon2::Argon2::new(argon2::Algorithm::Argon2id, argon2::Version::V0x13, params);
    let mut key = [0u8; 32];
    a2.hash_password_into(password, salt, &mut key)
        .expect("the caller bounds the input lengths");
    key
}

/// Relies on rand_chacha::ChaCha20Rng::from_seed and RngCore::fill_bytes:
/// the generator is a deterministic stream fixed by its seed alone, and
/// fill_bytes hands out its next `n` bytes.
#[verifier::external_body]
fn chacha20_bytes(seed: &[u8; 32], n: usize) -> (r: Vec<u8>)
    ensures
        r@.len() == n,
        forall|i: int| 0 <= i < n ==> r@[i] == chacha20_byte(seed@, i),
{
    let mut rng = rand_chacha::ChaCha20Rng::from_seed(*seed);
    let mut buf = vec![0u8; n];
    rng.fill_bytes(&mut buf);
    buf
}

/// Relies on ctr::Ctr64BE<aes::Aes256>, through cipher::KeyIvInit::new and
/// cipher::StreamCipher::apply_keystream: the keystream is a function of key
/// and initialization vector alone and is XORed into the buffer byte by
/// byte; with a 64-bit counter over 16-byte blocks its end lies beyond any
/// buffer this machine can hold, so the call cannot panic.
#[verifier::external_body]
fn aes256_ctr_xor(key: &[u8; 32], iv: &[u8; 16], buf: &mut Vec<u8>)
    ensures
        final(buf)@.len() == old(buf)@.len(),
        forall|i: int|
            0 <= i < old(buf)@.len() ==> final(buf)@[i] == old(buf)@[i] ^ aes256_ctr_byte(
                key@,
                iv@,
                i,
            ),
{
    let mut cipher = ctr::Ctr64BE::<aes::Aes256>::new(&(*key).into(), &(*iv).into());
    cipher.apply_keystream(buf.as_mut_slice());
}

/// Relies on zeroize::Zeroize for [u8; 32]: every element is overwritten
/// with zero, through a write the compiler will not elide.
#[verifier::external_body]
fn wipe_key32(key: &mut [u8; 32])
    ensures
        forall|i: int| 0 <= i < 32 ==> final(key)@[i] == 0,
{
    key.zeroize();
}

/// Byte `i` of the combined deterministic stream under a derived key: the
/// ChaCha20 byte XORed with the AES-256 counter-mode keystream byte.
pub open spec fn material_byte(key: Seq<u8>, i: int) -> u8 {
    chacha20_byte(key, i) ^ aes256_ctr_byte(key, iv_spec(), i)
}

/// The first `size` bytes of the combined deterministic stream.
pub open spec fn keystream_material_spec(key: Seq<u8>, size: int) -> Seq<u8> {
    Seq::new(size as nat, |i: int| material_byte(key, i))
}

/// The fixed initialization vector as a value.
fn iv_bytes() -> (r: [u8; 16])
    ensures
        r@ == iv_spec(),
{
    let r: [u8; 16] = [12, 85, 240, 66, 171, 19, 55, 129, 200, 33, 147, 89, 78, 123, 211, 34];
    proof {
        assert(r@ =~= iv_spec());
    }
    r
}

/// The fixed key-derivation salt as a value.
fn salt_bytes() -> (r: Vec<u8>)
    ensures
        r@ == salt_spec(),
{
    let r: Vec<u8> = vec![121, 111, 117, 114, 95, 115, 97, 108, 116, 95, 104, 101, 114, 101];
    proof {
        assert(r@ =~= salt_spec());
    }
    r
}

/// Exactly `size` bytes of the combined deterministic stream under the
/// given derived key: ChaCha20 output with the AES-256 counter-mode
/// keystream XORed over it, as `keystream_material_spec` says byte by byte.
pub fn keystream_material(key: &[u8; 32], size: usize) -> (r: Vec<u8>)
    ensures
        r@ == keystream_material_spec(key@, size as int),
{
    let mut buf = chacha20_bytes(key, size);
    let iv = iv_bytes();
    aes256_ctr_xor(key, &iv, &mut buf);
    proof {
        assert(buf@ =~= keystream_material_spec(key@, size as int));
    }
    buf
}

/// The whole deterministic generator as a function of password and size:
/// the combined stream under the Argon2id key derived from the password
/// with the fixed salt and cost parameters.
pub open spec fn deterministic_material_spec(password: Seq<u8>, size: int) -> Seq<u8> {
    keystream_material_spec(
        argon2id_key32(
            password,
            salt_spec(),
            ARGON2_MEMORY_COST,
            ARGON2_TIME_COST,
            ARGON2_PARALLELISM,
        ),
        size,
    )
}

/// Exactly `size` bytes of deterministic key material for the password: the
/// same password and size always give the same bytes. The derived key is
/// zeroed before the function returns. The length bound on the password is
/// the key-derivation call's own input limit.
///
/// The material is produced as one buffer, so the requested size is also the
/// memory ceiling; the caller streams it out as it sees fit.
pub fn deterministic_material(password: &Vec<u8>, size: usize) -> (r: Vec<u8>)
    requires
        password@.len() <= 0xFFFF_FFFF,
    ensures
        r@ == deterministic_material_spec(password@, size as int),
        r@.len() == size,
{
    let salt = salt_bytes();
    let mut key = argon2id_derive(
        password,
        &salt,
        ARGON2_MEMORY_COST,
        ARGON2_TIME_COST,
        ARGON2_PARALLELISM,
    );
    let out = keystream_material(&key, size);
    wipe_key32(&mut key);
    out
}

/// Determinism of the generator: any two outputs contracted to the same
/// password and size are byte-identical.
pub proof fn lemma_deterministic_material_repeatable(
    a: Seq<u8>,
    b: Seq<u8>,
    password: Seq<u8>,
    size: int,
)
    requires
        a == deterministic_material_spec(password, size),
        b == deterministic_material_spec(password, size),
    ensures
        a == b,
{
}

} // verus!
