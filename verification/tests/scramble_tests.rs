use crypt::errors::CryptError;
use crypt::scramble::{scramble_bytes, scramble_destination, ScrambleDest};

#[test]
fn scrambling_preserves_the_multiset_of_bytes() {
    let original: Vec<u8> = b"the quick brown fox jumps over the lazy dog".to_vec();
    let mut data = original.clone();
    assert_eq!(scramble_bytes(&mut data), Ok(()));
    assert_eq!(data.len(), original.len());
    let mut sorted_before = original.clone();
    sorted_before.sort();
    let mut sorted_after = data.clone();
    sorted_after.sort();
    assert_eq!(sorted_after, sorted_before);
}

#[test]
fn scrambling_moves_bytes_around() {
    // 256 distinct bytes: the chance of the identity permutation is 1/256!.
    let original: Vec<u8> = (0..=255).collect();
    let mut data = original.clone();
    assert_eq!(scramble_bytes(&mut data), Ok(()));
    assert_ne!(data, original);
}

#[test]
fn empty_input_is_rejected_unchanged() {
    let mut data: Vec<u8> = vec![];
    assert_eq!(scramble_bytes(&mut data), Err(CryptError::EmptyInput));
    assert!(data.is_empty());
}

#[test]
fn destination_rule() {
    assert_eq!(
        scramble_destination(true, false, false),
        Ok(ScrambleDest::NewFile)
    );
    assert_eq!(
        scramble_destination(true, true, false),
        Err(CryptError::AlreadyExists)
    );
    // An existing output file is refused even with --overwrite also set.
    assert_eq!(
        scramble_destination(true, true, true),
        Err(CryptError::AlreadyExists)
    );
    assert_eq!(
        scramble_destination(false, false, true),
        Ok(ScrambleDest::InPlace)
    );
    assert_eq!(
        scramble_destination(false, false, false),
        Err(CryptError::NoDestination)
    );
}
