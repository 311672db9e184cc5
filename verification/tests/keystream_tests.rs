use crypt::keystream::{deterministic_material, keystream_material};
use crypt::random::random_material;
use crypt::xor::xor_bytes;

#[test]
fn same_password_and_size_give_identical_material() {
    let password = b"secret".to_vec();
    let first = deterministic_material(&password, 4096);
    let second = deterministic_material(&password, 4096);
    assert_eq!(first, second);
    assert_eq!(first.len(), 4096);
}

#[test]
fn different_passwords_give_different_material() {
    let first = deterministic_material(&b"secret".to_vec(), 256);
    let second = deterministic_material(&b"Secret".to_vec(), 256);
    assert_ne!(first, second);
}

#[test]
fn zero_bytes_of_material_is_fine() {
    let password = b"secret".to_vec();
    assert!(deterministic_material(&password, 0).is_empty());
}

#[test]
fn keystream_is_a_function_of_the_key_alone() {
    let key = [7u8; 32];
    let first = keystream_material(&key, 1000);
    let second = keystream_material(&key, 1000);
    assert_eq!(first, second);
    assert_eq!(first.len(), 1000);
    let other = keystream_material(&[8u8; 32], 1000);
    assert_ne!(first, other);
}

#[test]
fn a_longer_request_extends_the_same_stream() {
    let key = [3u8; 32];
    let short = keystream_material(&key, 100);
    let long = keystream_material(&key, 200);
    assert_eq!(short[..], long[..100]);
}

#[test]
fn keygen_then_xor_round_trips() {
    // A freshly generated random key covering the input round-trips it.
    let key = random_material(1024);
    let input = random_material(1000);
    let encrypted = xor_bytes(&input, &key).unwrap();
    let decrypted = xor_bytes(&encrypted, &key).unwrap();
    assert_eq!(decrypted, input);
    assert_ne!(encrypted, input);
}

#[test]
fn ten_megabytes_of_deterministic_material_is_reproducible() {
    let password = b"secret".to_vec();
    let size = 10 * 1024 * 1024;
    let first = deterministic_material(&password, size);
    let second = deterministic_material(&password, size);
    assert_eq!(first.len(), size);
    assert_eq!(first, second);
}

#[test]
fn keystream_opening_bytes_are_stable() {
    // A recorded opening of the combined stream under a fixed key: any
    // change to the derivation pipeline, including a layer silently handing
    // its buffer back unchanged, shows up here.
    let key = [7u8; 32];
    assert_eq!(
        keystream_material(&key, 16),
        vec![78, 204, 93, 75, 71, 243, 1, 216, 233, 216, 195, 171, 228, 117, 113, 189]
    );
}
