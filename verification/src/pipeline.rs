//! The per-rendition pipeline: hash the plaintext, encrypt it, hash the
//! ciphertext, then fold both hashes, the key and the metadata into the
//! rendered encrypted identifier text.

use vstd::prelude::*;
use crate::{CHUNK_SIZE, CHUNK_SIZE_AS_POWER_OF_2};
use crate::cid::{HASH_TAG, plain_cid, hash_bytes_to_cid};
use crate::encrypted_cid::{CID_TYPE_ENCRYPTED, ENCRYPTION_ALGORITHM, encrypted_cid_bytes, rendered, create_encrypted_cid, render_encrypted_cid};
use crate::hasher::{hash_of, hash_bytes};
use crate::cipher::{CipherError, ciphertext_of, applied_padding, num_chunks, encrypt_bytes_xchacha20};

verus! {

/// The encrypted identifier bytes of one rendition: fixed type and
/// algorithm tags, the chunk-size exponent, the tagged hash of the
/// encrypted blob, the key, the padding amount, and the nested plain
/// identifier of the plaintext.
pub open spec fn rendition_identifier_bytes(
    plain_hash: Seq<u8>,
    file_size: u64,
    encrypted_hash: Seq<u8>,
    key: Seq<u8>,
    padding: u32,
) -> Seq<u8> {
    encrypted_cid_bytes(
        CID_TYPE_ENCRYPTED,
        ENCRYPTION_ALGORITHM,
        CHUNK_SIZE_AS_POWER_OF_2,
        seq![HASH_TAG] + encrypted_hash,
        key,
        padding,
        plain_cid(plain_hash, file_size),
    )
}

/// Builds the rendered encrypted identifier text of one rendition from
/// the plaintext hash and size, the encrypted blob's hash, the key, and
/// the padding amount.
pub fn build_rendition_identifier(
    plain_hash: Vec<u8>,
    file_size: u64,
    encrypted_hash: &Vec<u8>,
    key: Vec<u8>,
    padding: u32,
) -> (s: String)
    ensures
        s@ == rendered(
            rendition_identifier_bytes(plain_hash@, file_size, encrypted_hash@, key@, padding),
        ),
{
    let mut tagged_hash: Vec<u8> = Vec::new();
    tagged_hash.push(HASH_TAG);
    tagged_hash.extend_from_slice(encrypted_hash.as_slice());
    proof {
        assert(tagged_hash@ =~= seq![HASH_TAG] + encrypted_hash@);
    }
    let nested_cid = hash_bytes_to_cid(plain_hash, file_size);
    let bytes = create_encrypted_cid(
        CID_TYPE_ENCRYPTED,
        ENCRYPTION_ALGORITHM,
        CHUNK_SIZE_AS_POWER_OF_2,
        tagged_hash,
        key,
        padding,
        nested_cid,
    );
    render_encrypted_cid(&bytes)
}

/// What one rendition's run of the pipeline produced: the ciphertext
/// stream, the key that seals it, and the rendered identifier text.
pub struct RenditionOutput {
    pub ciphertext: Vec<u8>,
    pub key: Vec<u8>,
    pub identifier: String,
}

/// Runs the whole per-rendition pipeline over a plaintext held in
/// memory: hash it, encrypt it under a fresh key, hash the ciphertext,
/// and render the encrypted identifier.
///
/// It always succeeds: a 32-bit padding request can never push the
/// final chunk past the cipher's message limit. The ciphertext is
/// exactly the chunked stream under the returned key, and the
/// identifier text embeds that key, both content hashes, and the
/// plaintext's size.
pub fn encrypt_and_identify(plaintext: &[u8], padding: u32) -> (r: Result<
    RenditionOutput,
    CipherError,
>)
    requires
        plaintext@.len() + padding <= usize::MAX,
        plaintext@.len() <= u64::MAX,
        plaintext@.len() <= (u32::MAX as nat) * (CHUNK_SIZE as nat),
    ensures
        r is Ok,
        r is Ok ==> ({
            let out = r->Ok_0;
            &&& out.key@.len() == 32
            &&& out.ciphertext@ == ciphertext_of(out.key@, plaintext@, padding as nat)
            &&& out.ciphertext@.len() == plaintext@.len() + applied_padding(
                plaintext@.len(),
                padding as nat,
            ) + 16 * num_chunks(plaintext@.len())
            &&& out.identifier@ == rendered(
                rendition_identifier_bytes(
                    hash_of(plaintext@),
                    plaintext@.len() as u64,
                    hash_of(out.ciphertext@),
                    out.key@,
                    padding,
                ),
            )
        }),
{
    let plain_hash = hash_bytes(plaintext);
    let file_size: u64 = plaintext.len() as u64;
    proof {
        assert(plaintext@.len() % (CHUNK_SIZE as nat) < CHUNK_SIZE as nat);
        assert(applied_padding(plaintext@.len(), padding as nat) <= u32::MAX);
    }
    let (ciphertext, key) = match encrypt_bytes_xchacha20(plaintext, padding as usize) {
        Ok(p) => p,
        Err(e) => {
            return Err(e);
        },
    };
    let encrypted_hash = hash_bytes(ciphertext.as_slice());
    let identifier = build_rendition_identifier(
        plain_hash,
        file_size,
        &encrypted_hash,
        clone_key(&key),
        padding,
    );
    Ok(RenditionOutput { ciphertext, key, identifier })
}

/// Copies a key's bytes.
fn clone_key(key: &Vec<u8>) -> (r: Vec<u8>)
    ensures
        r@ == key@,
{
    vstd::slice::slice_to_vec(key.as_slice())
}

} // verus!
