use crypt::errors::CryptError;
use crypt::xor::{verify_lengths, xor_bytes};

#[test]
fn xor_combines_byte_by_byte() {
    let input: Vec<u8> = vec![0x0F, 0x00, 0xFF, 0b1010_1010];
    let key: Vec<u8> = vec![0xF0, 0x00, 0xFF, 0b0101_0101, 0x99];
    let out = xor_bytes(&input, &key).unwrap();
    assert_eq!(out, vec![0xFF, 0x00, 0x00, 0xFF]);
}

#[test]
fn xor_round_trips() {
    let input: Vec<u8> = (0..=255).collect();
    let key: Vec<u8> = (0..=255).rev().collect();
    let encrypted = xor_bytes(&input, &key).unwrap();
    let decrypted = xor_bytes(&encrypted, &key).unwrap();
    assert_eq!(decrypted, input);
}

#[test]
fn key_one_byte_short_is_rejected() {
    let input: Vec<u8> = vec![1, 2, 3, 4];
    let key: Vec<u8> = vec![9, 9, 9];
    assert_eq!(xor_bytes(&input, &key), Err(CryptError::KeyTooShort));
}

#[test]
fn empty_key_is_rejected_first() {
    let input: Vec<u8> = vec![1, 2, 3];
    let key: Vec<u8> = vec![];
    assert_eq!(xor_bytes(&input, &key), Err(CryptError::EmptyKey));
    // Even when the input is empty too, the key is checked first.
    let both: Vec<u8> = vec![];
    assert_eq!(xor_bytes(&both, &key), Err(CryptError::EmptyKey));
}

#[test]
fn empty_input_is_rejected() {
    let input: Vec<u8> = vec![];
    let key: Vec<u8> = vec![42];
    assert_eq!(xor_bytes(&input, &key), Err(CryptError::EmptyInput));
}

#[test]
fn post_write_length_check() {
    assert_eq!(verify_lengths(1000, 1000), Ok(()));
    assert_eq!(verify_lengths(1000, 999), Err(CryptError::SizeMismatch));
}
