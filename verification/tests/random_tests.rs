use crypt::errors::CryptError;
use crypt::random::{check_passes, chunk_len, erase_pass_materials, random_material, CHUNK_CAP};

#[test]
fn random_material_has_exactly_the_requested_length() {
    assert_eq!(random_material(0).len(), 0);
    assert_eq!(random_material(1).len(), 1);
    assert_eq!(random_material(5000).len(), 5000);
    // More than two full chunks, to drive the streaming loop.
    assert_eq!(random_material(2 * CHUNK_CAP + 3).len(), 2 * CHUNK_CAP + 3);
}

#[test]
fn two_draws_differ() {
    // 32 fresh random bytes collide with probability 2^-256.
    let a = random_material(32);
    let b = random_material(32);
    assert_ne!(a, b);
}

#[test]
fn chunks_are_capped_at_the_buffer_size() {
    assert_eq!(chunk_len(5000, 0), 5000);
    assert_eq!(chunk_len(5000, 4999), 1);
    assert_eq!(chunk_len(3_000_000, 0), CHUNK_CAP);
    assert_eq!(chunk_len(3_000_000, 2 * CHUNK_CAP), 3_000_000 - 2 * CHUNK_CAP);
}

#[test]
fn erase_runs_one_full_length_pass_per_requested_pass() {
    let passes = erase_pass_materials(5000, 3).unwrap();
    assert_eq!(passes.len(), 3);
    for pass in &passes {
        assert_eq!(pass.len(), 5000);
    }
    // Fresh random data each pass: two 5000-byte passes never coincide.
    assert_ne!(passes[0], passes[1]);
    assert_ne!(passes[1], passes[2]);
}

#[test]
fn zero_passes_are_rejected() {
    assert_eq!(
        erase_pass_materials(5000, 0).unwrap_err(),
        CryptError::ZeroPasses
    );
    assert_eq!(check_passes(0), Err(CryptError::ZeroPasses));
    assert_eq!(check_passes(1), Ok(()));
}

#[test]
fn erased_length_is_preserved_for_empty_files() {
    let passes = erase_pass_materials(0, 2).unwrap();
    assert_eq!(passes.len(), 2);
    assert!(passes.iter().all(|p| p.is_empty()));
}
