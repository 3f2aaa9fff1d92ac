//! Checksum behaviour: exact digests, shape, and determinism.

use epub_extract::digest::compute_checksum;

#[test]
fn checksum_of_empty_input() {
    let bytes: Vec<u8> = Vec::new();
    let c = compute_checksum(&bytes);
    assert_eq!(
        c,
        "e3b0c44298fc1c149afbf4c8996fb92427ae41e4649b934ca495991b7852b855"
    );
}

#[test]
fn checksum_of_known_bytes() {
    let bytes: Vec<u8> = b"abc".to_vec();
    let c = compute_checksum(&bytes);
    assert_eq!(
        c,
        "ba7816bf8f01cfea414140de5dae2223b00361a396177a9cb410ff61f20015ad"
    );
}

#[test]
fn checksum_shape_and_determinism() {
    let bytes: Vec<u8> = b"some archive content".to_vec();
    let c1 = compute_checksum(&bytes);
    let c2 = compute_checksum(&bytes);
    assert_eq!(c1.len(), 64, "SHA-256 checksum should be 64 hex characters");
    assert!(c1
        .chars()
        .all(|ch| ch.is_ascii_digit() || ('a'..='f').contains(&ch)));
    assert_eq!(c1, c2, "Checksum should be deterministic");
}

#[test]
fn base64_known_values() {
    assert_eq!(epub_extract::content::base64_encode(&Vec::new()), b"");
    assert_eq!(epub_extract::content::base64_encode(&b"f".to_vec()), b"Zg==");
    assert_eq!(epub_extract::content::base64_encode(&b"fo".to_vec()), b"Zm8=");
    assert_eq!(epub_extract::content::base64_encode(&b"foo".to_vec()), b"Zm9v");
    assert_eq!(
        epub_extract::content::base64_encode(&b"hello".to_vec()),
        b"aGVsbG8="
    );
}
