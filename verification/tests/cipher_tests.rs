use chacha20poly1305::aead::{Aead, KeyInit};
use chacha20poly1305::{Key, XChaCha20Poly1305, XNonce};
use transcode_core::cipher::{encrypt_bytes_xchacha20, nonce_for_index};

const CHUNK_SIZE: usize = 262144;
const TAG_LEN: usize = 16;

fn nonce_of_index(index: u32) -> [u8; 24] {
    let mut nonce = [0u8; 24];
    nonce[..4].copy_from_slice(&index.to_le_bytes());
    nonce
}

/// Reads the ciphertext stream back in `CHUNK_SIZE + TAG_LEN` windows,
/// reconstructing each nonce from the running index.
fn decrypt_stream(key: &[u8], ct: &[u8]) -> Vec<u8> {
    let cipher = XChaCha20Poly1305::new(Key::from_slice(key));
    let window = CHUNK_SIZE + TAG_LEN;
    let mut out = Vec::new();
    let mut index: u32 = 0;
    let mut pos = 0usize;
    while pos < ct.len() {
        let end = if ct.len() - pos > window { pos + window } else { ct.len() };
        let nonce = nonce_of_index(index);
        let chunk = cipher
            .decrypt(XNonce::from_slice(&nonce), &ct[pos..end])
            .expect("chunk must authenticate");
        out.extend_from_slice(&chunk);
        pos = end;
        index += 1;
    }
    out
}

fn pattern(len: usize, seed: u8) -> Vec<u8> {
    (0..len).map(|i| (i as u8).wrapping_mul(31).wrapping_add(seed)).collect()
}

#[test]
fn emits_no_chunk_for_empty_plaintext() {
    let (ct, key) = encrypt_bytes_xchacha20(&[], 0).expect("encryption succeeds");
    assert_eq!(ct.len(), 0);
    assert_eq!(key.len(), 32);
}

#[test]
fn chunk_counts_match_ceiling_formula() {
    for &(len, chunks) in [(1usize, 1usize), (CHUNK_SIZE - 1, 1), (CHUNK_SIZE, 1), (CHUNK_SIZE + 1, 2)].iter() {
        let pt = pattern(len, 7);
        let (ct, _) = encrypt_bytes_xchacha20(&pt, 0).expect("encryption succeeds");
        assert_eq!(ct.len(), len + TAG_LEN * chunks);
    }
}

#[test]
fn round_trips_small_lengths() {
    for &len in [0usize, 1, CHUNK_SIZE - 1, CHUNK_SIZE, CHUNK_SIZE + 1].iter() {
        let pt = pattern(len, 3);
        let (ct, key) = encrypt_bytes_xchacha20(&pt, 0).expect("encryption succeeds");
        assert_eq!(decrypt_stream(&key, &ct), pt);
    }
}

#[test]
fn round_trips_ten_chunks() {
    let pt = pattern(10 * CHUNK_SIZE, 11);
    let (ct, key) = encrypt_bytes_xchacha20(&pt, 0).expect("encryption succeeds");
    assert_eq!(ct.len(), 10 * CHUNK_SIZE + 10 * TAG_LEN);
    assert_eq!(decrypt_stream(&key, &ct), pt);
}

#[test]
fn nonces_are_unique_and_little_endian() {
    let n0 = nonce_for_index(0);
    let n1 = nonce_for_index(1);
    let n256 = nonce_for_index(256);
    assert_eq!(n0, vec![0u8; 24]);
    let mut expected1 = vec![0u8; 24];
    expected1[0] = 1;
    assert_eq!(n1, expected1);
    let mut expected256 = vec![0u8; 24];
    expected256[1] = 1;
    assert_eq!(n256, expected256);
    assert_ne!(n0, n1);
    assert_ne!(n0, n256);
    assert_ne!(n1, n256);
}

#[test]
fn padding_region_is_zero_filler_not_residual_data() {
    // Two different plaintexts of one length, both padded: the padding
    // region of the final chunk must decrypt to zero filler both times,
    // never to bytes that depend on the data that came before.
    let padding = 8usize;
    let pt_a = pattern(100, 0xAA);
    let pt_b = pattern(100, 0x55);
    let (ct_a, key_a) = encrypt_bytes_xchacha20(&pt_a, padding).expect("encryption succeeds");
    let (ct_b, key_b) = encrypt_bytes_xchacha20(&pt_b, padding).expect("encryption succeeds");
    assert_eq!(ct_a.len(), 100 + padding + TAG_LEN);
    let full_a = decrypt_stream(&key_a, &ct_a);
    let full_b = decrypt_stream(&key_b, &ct_b);
    assert_eq!(&full_a[..100], &pt_a[..]);
    assert_eq!(&full_b[..100], &pt_b[..]);
    assert_eq!(&full_a[100..], &[0u8; 8]);
    assert_eq!(&full_b[100..], &[0u8; 8]);
}

#[test]
fn padding_ignored_on_chunk_aligned_plaintext() {
    let pt = pattern(CHUNK_SIZE, 1);
    let (ct, key) = encrypt_bytes_xchacha20(&pt, 64).expect("encryption succeeds");
    assert_eq!(ct.len(), CHUNK_SIZE + TAG_LEN);
    assert_eq!(decrypt_stream(&key, &ct), pt);
}

#[test]
fn concrete_three_byte_scenario() {
    let pt = vec![0x41u8, 0x42, 0x43];
    let (ct, key) = encrypt_bytes_xchacha20(&pt, 0).expect("encryption succeeds");
    assert_eq!(ct.len(), 3 + TAG_LEN);
    assert_eq!(key.len(), 32);
    let cipher = XChaCha20Poly1305::new(Key::from_slice(&key));
    let nonce = nonce_of_index(0);
    let decrypted = cipher
        .decrypt(XNonce::from_slice(&nonce), &ct[..])
        .expect("chunk must authenticate");
    assert_eq!(decrypted, pt);
}

#[test]
fn fresh_key_each_invocation() {
    let pt = pattern(10, 1);
    let (_, key_a) = encrypt_bytes_xchacha20(&pt, 0).expect("encryption succeeds");
    let (_, key_b) = encrypt_bytes_xchacha20(&pt, 0).expect("encryption succeeds");
    assert_ne!(key_a, key_b);
}
