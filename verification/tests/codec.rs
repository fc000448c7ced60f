use proof_service::codec::{decode_chunks, encode_chunks};
use proof_service::digest::elf_id;

#[test]
fn list_is_stored_with_its_lengths() {
    let bytes = encode_chunks(&vec![vec![1u8, 2], vec![]]);
    let mut expected: Vec<u8> = vec![2, 0, 0, 0, 0, 0, 0, 0];
    expected.extend([2, 0, 0, 0, 0, 0, 0, 0, 1, 2]);
    expected.extend([0, 0, 0, 0, 0, 0, 0, 0]);
    assert_eq!(bytes, expected);
    assert_eq!(encode_chunks(&vec![]), vec![0u8; 8]);
}

#[test]
fn long_length_is_stored_low_byte_first() {
    let bytes = encode_chunks(&vec![vec![7u8; 515]]);
    assert_eq!(bytes[..8], [1, 0, 0, 0, 0, 0, 0, 0]);
    assert_eq!(bytes[8..16], [3, 2, 0, 0, 0, 0, 0, 0]);
    assert_eq!(bytes.len(), 16 + 515);
}

#[test]
fn list_round_trip() {
    let chunks: Vec<Vec<u8>> = vec![vec![1, 2, 3], vec![], vec![255; 300]];
    let bytes = encode_chunks(&chunks);
    assert_eq!(decode_chunks(&bytes), Ok(chunks));
}

#[test]
fn what_follows_a_list_is_ignored() {
    let chunks: Vec<Vec<u8>> = vec![vec![9, 8]];
    let mut bytes = encode_chunks(&chunks);
    bytes.extend([1, 2, 3, 4]);
    assert_eq!(decode_chunks(&bytes), Ok(chunks));
}

#[test]
fn broken_list_is_refused() {
    assert!(decode_chunks(&[]).is_err());
    assert!(decode_chunks(&[1, 0, 0]).is_err());
    assert!(decode_chunks(&[1, 0, 0, 0, 0, 0, 0, 0]).is_err());
    assert!(decode_chunks(&[1, 0, 0, 0, 0, 0, 0, 0, 2, 0, 0, 0, 0, 0, 0, 0, 5]).is_err());
    let message = decode_chunks(&[]).unwrap_err();
    assert!(!message.is_empty());
    assert_eq!(decode_chunks(&[]).unwrap_err(), message);
}

#[test]
fn program_identity_is_its_digest() {
    assert_eq!(
        elf_id(b"abc"),
        "ba7816bf8f01cfea414140de5dae2223b00361a396177a9cb410ff61f20015ad"
    );
    assert_eq!(
        elf_id(b""),
        "e3b0c44298fc1c149afbf4c8996fb92427ae41e4649b934ca495991b7852b855"
    );
}
