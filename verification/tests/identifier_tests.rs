use transcode_core::cid::hash_bytes_to_cid;
use transcode_core::encrypted_cid::{
    create_encrypted_cid, decode_encrypted_cid, parse_encrypted_cid_text, render_encrypted_cid,
};
use transcode_core::hasher::hash_bytes;
use transcode_core::pipeline::encrypt_and_identify;
use transcode_core::registry::{Resolution, ResultStore};

fn sample_fields() -> (u8, u8, u8, Vec<u8>, Vec<u8>, u32, Vec<u8>) {
    let mut tagged_hash = vec![0x1fu8];
    tagged_hash.extend((0u8..32u8).map(|b| b.wrapping_mul(5)));
    let key: Vec<u8> = (0u8..32u8).map(|b| b.wrapping_add(100)).collect();
    let nested = hash_bytes_to_cid((0u8..32u8).collect(), 987654321);
    (0xae, 0xa6, 18, tagged_hash, key, 0, nested)
}

#[test]
fn encrypted_cid_byte_layout_is_exact() {
    let (t, alg, exp, tagged_hash, key, padding, nested) = sample_fields();
    let bytes = create_encrypted_cid(t, alg, exp, tagged_hash.clone(), key.clone(), padding, nested.clone());
    let mut expected = vec![t, alg, exp];
    expected.extend_from_slice(&tagged_hash);
    expected.extend_from_slice(&key);
    // padding 0 trims to an empty field
    expected.extend_from_slice(&nested);
    assert_eq!(bytes, expected);
}

#[test]
fn encrypted_cid_decodes_to_original_fields() {
    let (t, alg, exp, tagged_hash, key, _, nested) = sample_fields();
    let padding: u32 = 513;
    let bytes = create_encrypted_cid(t, alg, exp, tagged_hash.clone(), key.clone(), padding, nested.clone());
    let parts = decode_encrypted_cid(&bytes, nested.len()).expect("well-formed identifier");
    assert_eq!(parts.cid_type_encrypted, t);
    assert_eq!(parts.encryption_algorithm, alg);
    assert_eq!(parts.chunk_size_as_power_of_2, exp);
    assert_eq!(parts.encrypted_blob_hash, tagged_hash);
    assert_eq!(parts.encryption_key, key);
    assert_eq!(parts.padding, padding);
    assert_eq!(parts.cid, nested);
}

#[test]
fn rendered_text_round_trips_every_field() {
    let (t, alg, exp, tagged_hash, key, _, nested) = sample_fields();
    let padding: u32 = 7;
    let bytes = create_encrypted_cid(t, alg, exp, tagged_hash.clone(), key.clone(), padding, nested.clone());
    let text = render_encrypted_cid(&bytes);
    let parts = parse_encrypted_cid_text(text.as_str(), nested.len()).expect("rendered text parses");
    assert_eq!(parts.cid_type_encrypted, t);
    assert_eq!(parts.encryption_algorithm, alg);
    assert_eq!(parts.chunk_size_as_power_of_2, exp);
    assert_eq!(parts.encrypted_blob_hash, tagged_hash);
    assert_eq!(parts.encryption_key, key);
    assert_eq!(parts.padding, padding);
    assert_eq!(parts.cid, nested);
}

#[test]
fn rendered_text_matches_multibase_grammar() {
    let (t, alg, exp, tagged_hash, key, padding, nested) = sample_fields();
    let bytes = create_encrypted_cid(t, alg, exp, tagged_hash, key, padding, nested);
    let text = render_encrypted_cid(&bytes);
    let mut chars = text.chars();
    assert_eq!(chars.next(), Some('u'));
    assert!(text.len() > 1);
    for c in chars {
        assert!(c.is_ascii_alphanumeric() || c == '-' || c == '_');
    }
}

#[test]
fn parse_rejects_missing_marker_and_garbage() {
    assert!(parse_encrypted_cid_text("", 34).is_none());
    assert!(parse_encrypted_cid_text("xAAAA", 34).is_none());
    assert!(parse_encrypted_cid_text("u!!!not-base64!!!", 34).is_none());
    // too short to hold the fixed fields
    assert!(parse_encrypted_cid_text("uAAAA", 34).is_none());
}

#[test]
fn hashing_is_deterministic() {
    let data = b"determinism of content addressing";
    let first = hash_bytes(data);
    let second = hash_bytes(data);
    assert_eq!(first, second);
    assert_eq!(first.len(), 32);
    let other = hash_bytes(b"another byte sequence");
    assert_ne!(first, other);
}

#[test]
fn pipeline_identifier_embeds_hashes_key_and_size() {
    let plaintext = b"a tiny rendition of a blob";
    let out = encrypt_and_identify(plaintext, 0).expect("pipeline succeeds");
    assert_eq!(out.key.len(), 32);
    assert_eq!(out.ciphertext.len(), plaintext.len() + 16);

    let nested_len = 34 + trimmed_le_len(plaintext.len() as u64);
    let parts = parse_encrypted_cid_text(out.identifier.as_str(), nested_len)
        .expect("identifier parses");
    assert_eq!(parts.cid_type_encrypted, 0xae);
    assert_eq!(parts.encryption_algorithm, 0xa6);
    assert_eq!(parts.chunk_size_as_power_of_2, 18);
    assert_eq!(parts.padding, 0);
    assert_eq!(parts.encryption_key, out.key);

    let mut expected_tagged = vec![0x1fu8];
    expected_tagged.extend_from_slice(&hash_bytes(&out.ciphertext));
    assert_eq!(parts.encrypted_blob_hash, expected_tagged);

    let expected_nested = hash_bytes_to_cid(hash_bytes(plaintext), plaintext.len() as u64);
    assert_eq!(parts.cid, expected_nested);
}

fn trimmed_le_len(size: u64) -> usize {
    let mut bytes = size.to_le_bytes().to_vec();
    while bytes.last() == Some(&0) {
        bytes.pop();
    }
    bytes.len()
}

#[test]
fn result_store_answers_queries() {
    let mut store = ResultStore::new();
    let (status, cid) = store.get_cid_response(Some(Resolution::R2160p));
    assert_eq!(status, 404);
    assert_eq!(cid, "");

    store.set_cid(Resolution::R2160p, String::from("uABCD"));
    let (status, cid) = store.get_cid_response(Some(Resolution::R2160p));
    assert_eq!(status, 200);
    assert_eq!(cid, "uABCD");

    let (status, cid) = store.get_cid_response(Some(Resolution::R1080p));
    assert_eq!(status, 404);
    assert_eq!(cid, "");

    let (status, _) = store.get_cid_response(None);
    assert_eq!(status, 404);
}
