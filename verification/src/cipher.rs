//! The chunked blob cipher: streams a plaintext through fixed-size
//! chunks, seals each chunk independently with an authenticated cipher
//! under one fresh key and an index-derived nonce, and emits the sealed
//! chunks in order with no separators.
//!
//! The final chunk, when shorter than `CHUNK_SIZE`, is extended by the
//! caller-requested number of padding bytes of deterministic zero filler
//! before sealing, so no residual buffer content ever reaches the
//! ciphertext. A plaintext whose length is an exact multiple of
//! `CHUNK_SIZE` has no short final chunk and takes no padding.

use vstd::prelude::*;
use vstd::bytes::{spec_u32_to_le_bytes, spec_u32_from_le_bytes, u32_to_le_bytes, lemma_auto_spec_u32_to_from_le_bytes};
use vstd::slice::{slice_subrange, slice_to_vec};
use chacha20poly1305::aead::{Aead, KeyInit, OsRng};
use chacha20poly1305::{Key, XChaCha20Poly1305, XNonce};
use crate::{CHUNK_SIZE, zero_bytes};

verus! {

/// Length in bytes of the authentication tag each sealed chunk carries.
pub const TAG_LEN: usize = 16;

/// Length in bytes of a nonce.
pub const NONCE_LEN: usize = 24;

/// Longest message the stream cipher can seal: just under 2^32 blocks
/// of 64 bytes, the point where the cipher's block counter would
/// overflow.
pub const MAX_AEAD_MESSAGE_LEN: u64 = 64 * 0xffff_ffff;

/// Chunk encryption failed; the ciphertext stream is unusable and the
/// failure is fatal for the blob.
#[derive(Clone, Copy, Debug, PartialEq, Eq)]
pub struct CipherError;

/// The sealed form of one chunk under `(key, nonce)`: the chunk's
/// ciphertext with its authentication tag appended, a value determined
/// by the key, the nonce and the chunk plaintext alone.
pub uninterp spec fn xchacha_ct(key: Seq<u8>, nonce: Seq<u8>, chunk: Seq<u8>) -> Seq<u8>;

/// The nonce of chunk index `i`: the index little-endian in the
/// low-order bytes, the remaining high-order bytes zero.
pub open spec fn nonce_bytes(i: u32) -> Seq<u8> {
    spec_u32_to_le_bytes(i) + zero_bytes(20)
}

/// The number of chunks a plaintext of length `len` is split into:
/// `ceil(len / CHUNK_SIZE)`, and none at all for an empty plaintext.
pub open spec fn num_chunks(len: nat) -> nat {
    (((len + CHUNK_SIZE - 1) as int) / (CHUNK_SIZE as int)) as nat
}

/// The ciphertext stream for the plaintext suffix `pt`, whose first
/// chunk has index `i`: each full chunk sealed under its index-derived
/// nonce, and a short final chunk extended by `padding` zero bytes.
pub open spec fn chunks_ct(key: Seq<u8>, pt: Seq<u8>, padding: nat, i: u32) -> Seq<u8>
    decreases pt.len(),
{
    if pt.len() == 0 {
        Seq::empty()
    } else if pt.len() >= CHUNK_SIZE {
        xchacha_ct(key, nonce_bytes(i), pt.take(CHUNK_SIZE as int)) + chunks_ct(
            key,
            pt.skip(CHUNK_SIZE as int),
            padding,
            ((i + 1) as u32),
        )
    } else {
        xchacha_ct(key, nonce_bytes(i), pt + zero_bytes(padding))
    }
}

/// The whole ciphertext stream of a plaintext under `key` with the given
/// padding request: chunk indices run sequentially from zero.
pub open spec fn ciphertext_of(key: Seq<u8>, pt: Seq<u8>, padding: nat) -> Seq<u8> {
    chunks_ct(key, pt, padding, 0)
}

/// The number of padding bytes actually sealed into the stream: the
/// request applies only to a short final chunk.
pub open spec fn applied_padding(len: nat, padding: nat) -> nat {
    if len % (CHUNK_SIZE as nat) == 0 {
        0
    } else {
        padding
    }
}

/// Relies on XChaCha20Poly1305::generate_key with OsRng: a 32-byte key
/// drawn from the operating system's secure random source.
#[verifier::external_body]
fn generate_key() -> (k: Vec<u8>)
    ensures
        k@.len() == 32,
{
    XChaCha20Poly1305::generate_key(&mut OsRng).to_vec()
}

/// Relies on XChaCha20Poly1305::encrypt: authenticated encryption whose
/// output is determined by key, nonce and message alone, and is the
/// message's ciphertext with the 16-byte tag appended. It fails exactly
/// when the message would overflow the cipher's 32-bit block counter.
#[verifier::external_body]
fn aead_encrypt(key: &[u8], nonce: &[u8], chunk: &[u8]) -> (r: Result<Vec<u8>, CipherError>)
    requires
        key@.len() == 32,
        nonce@.len() == 24,
    ensures
        r is Ok <==> chunk@.len() < MAX_AEAD_MESSAGE_LEN,
        r is Ok ==> r->Ok_0@ == xchacha_ct(key@, nonce@, chunk@),
        r is Ok ==> r->Ok_0@.len() == chunk@.len() + 16,
{
    let cipher = XChaCha20Poly1305::new(Key::from_slice(key));
    match cipher.encrypt(XNonce::from_slice(nonce), chunk) {
        Ok(ct) => Ok(ct),
        Err(_) => Err(CipherError),
    }
}

/// Builds the 24-byte nonce of a chunk index.
pub fn nonce_for_index(i: u32) -> (n: Vec<u8>)
    ensures
        n@ == nonce_bytes(i),
        n@.len() == 24,
{
    let mut n = u32_to_le_bytes(i);
    n.resize(24, 0u8);
    proof {
        assert(n@ =~= nonce_bytes(i));
    }
    n
}

/// Distinct chunk indices derive distinct nonces, so within one blob's
/// encryption — sequential indices under one fresh key — no nonce is
/// ever repeated.
pub proof fn lemma_nonce_uniqueness(i: u32, j: u32)
    requires
        i != j,
    ensures
        nonce_bytes(i) != nonce_bytes(j),
{
    lemma_auto_spec_u32_to_from_le_bytes();
    if nonce_bytes(i) == nonce_bytes(j) {
        assert(nonce_bytes(i).subrange(0, 4) =~= spec_u32_to_le_bytes(i));
        assert(nonce_bytes(j).subrange(0, 4) =~= spec_u32_to_le_bytes(j));
        assert(spec_u32_from_le_bytes(spec_u32_to_le_bytes(i)) == i);
        assert(spec_u32_from_le_bytes(spec_u32_to_le_bytes(j)) == j);
    }
}

/// The padding region a short final chunk is extended with is the fixed
/// zero filler — a function of the padding amount alone, never residual
/// data from any buffer.
pub proof fn lemma_padding_filler_is_zero(key: Seq<u8>, pt: Seq<u8>, padding: nat, i: u32)
    requires
        0 < pt.len() < CHUNK_SIZE,
    ensures
        chunks_ct(key, pt, padding, i) == xchacha_ct(key, nonce_bytes(i), pt + zero_bytes(padding)),
        forall|k: int|
            pt.len() <= k < pt.len() + padding ==> (pt + zero_bytes(padding))[k] == 0u8,
{
}

/// Encrypts a plaintext into the chunked ciphertext stream, returning
/// the stream and the freshly generated 32-byte key.
///
/// On success the stream is exactly `ciphertext_of(key, plaintext,
/// padding)`: one sealed chunk per `CHUNK_SIZE` of plaintext —
/// `ceil(len / CHUNK_SIZE)` chunks in all, each contributing its length
/// plus a 16-byte tag — with the short final chunk, if any, extended by
/// `padding` zero bytes.
///
/// Fails with `CipherError` exactly when sealing some chunk fails, and
/// the only chunk that can fail is a short final chunk padded past the
/// cipher's message limit: every full chunk is far below it.
pub fn encrypt_bytes_xchacha20(plaintext: &[u8], padding: usize) -> (r: Result<
    (Vec<u8>, Vec<u8>),
    CipherError,
>)
    requires
        plaintext@.len() + padding <= usize::MAX,
        plaintext@.len() <= (u32::MAX as nat) * (CHUNK_SIZE as nat),
    ensures
        r is Ok <==> plaintext@.len() % (CHUNK_SIZE as nat) + applied_padding(
            plaintext@.len(),
            padding as nat,
        ) < MAX_AEAD_MESSAGE_LEN,
        r is Ok ==> ({
            let ct = r->Ok_0.0;
            let key = r->Ok_0.1;
            &&& key@.len() == 32
            &&& ct@ == ciphertext_of(key@, plaintext@, padding as nat)
            &&& ct@.len() == plaintext@.len() + applied_padding(plaintext@.len(), padding as nat)
                + 16 * num_chunks(plaintext@.len())
        }),
{
    let key = generate_key();
    let mut out: Vec<u8> = Vec::new();
    let mut index: u32 = 0;
    let mut pos: usize = 0;
    let n = plaintext.len();
    proof {
        assert(plaintext@.skip(0) =~= plaintext@);
        assert(out@ + chunks_ct(key@, plaintext@, padding as nat, 0) =~= chunks_ct(
            key@,
            plaintext@,
            padding as nat,
            0,
        ));
    }
    while pos < n
        invariant
            key@.len() == 32,
            n == plaintext@.len(),
            plaintext@.len() + padding <= usize::MAX,
            plaintext@.len() <= (u32::MAX as nat) * (CHUNK_SIZE as nat),
            pos <= n,
            pos < n ==> pos == (index as nat) * (CHUNK_SIZE as nat),
            pos < n ==> out@.len() == pos + 16 * (index as nat),
            pos == n ==> out@.len() == n + applied_padding(n as nat, padding as nat) + 16
                * num_chunks(n as nat),
            pos == n ==> n as nat % (CHUNK_SIZE as nat) + applied_padding(n as nat, padding as nat)
                < MAX_AEAD_MESSAGE_LEN,
            out@ + chunks_ct(key@, plaintext@.skip(pos as int), padding as nat, index)
                == ciphertext_of(key@, plaintext@, padding as nat),
        decreases n - pos,
    {
        let remaining = n - pos;
        proof {
            assert((index as nat) * (CHUNK_SIZE as nat) < (u32::MAX as nat) * (CHUNK_SIZE as nat));
            assert(index < u32::MAX) by (nonlinear_arith)
                requires
                    (index as nat) * (CHUNK_SIZE as nat) < (u32::MAX as nat) * (CHUNK_SIZE as nat),
            ;
        }
        let ghost suffix = plaintext@.skip(pos as int);
        if remaining >= CHUNK_SIZE {
            let chunk = slice_subrange(plaintext, pos, pos + CHUNK_SIZE);
            proof {
                assert(chunk@ =~= suffix.take(CHUNK_SIZE as int));
            }
            let nonce = nonce_for_index(index);
            match aead_encrypt(key.as_slice(), nonce.as_slice(), chunk) {
                Ok(ct) => {
                    out.extend_from_slice(ct.as_slice());
                },
                Err(e) => {
                    return Err(e);
                },
            }
            proof {
                assert(suffix.skip(CHUNK_SIZE as int) =~= plaintext@.skip(pos + CHUNK_SIZE));
                assert(out@ + chunks_ct(
                    key@,
                    plaintext@.skip(pos + CHUNK_SIZE),
                    padding as nat,
                    ((index + 1) as u32),
                ) =~= ciphertext_of(key@, plaintext@, padding as nat));
            }
            pos = pos + CHUNK_SIZE;
            index = index + 1;
            proof {
                if pos == n {
                    assert(n as nat % (CHUNK_SIZE as nat) == 0);
                    assert(num_chunks(n as nat) == index as nat);
                }
            }
        } else {
            let mut chunk = slice_to_vec(slice_subrange(plaintext, pos, n));
            proof {
                assert(chunk@ =~= suffix);
            }
            chunk.resize(remaining + padding, 0u8);
            proof {
                assert(chunk@ =~= suffix + zero_bytes(padding as nat));
            }
            let nonce = nonce_for_index(index);
            match aead_encrypt(key.as_slice(), nonce.as_slice(), chunk.as_slice()) {
                Ok(ct) => {
                    out.extend_from_slice(ct.as_slice());
                },
                Err(e) => {
                    proof {
                        assert(n as nat % (CHUNK_SIZE as nat) == remaining as nat);
                        assert(applied_padding(n as nat, padding as nat) == padding as nat);
                    }
                    return Err(e);
                },
            }
            proof {
                assert(plaintext@.skip(n as int) =~= Seq::<u8>::empty());
                assert(out@ + chunks_ct(
                    key@,
                    plaintext@.skip(n as int),
                    padding as nat,
                    ((index + 1) as u32),
                ) =~= out@);
                assert(out@ =~= ciphertext_of(key@, plaintext@, padding as nat));
                assert(n as nat % (CHUNK_SIZE as nat) == remaining as nat);
                assert(num_chunks(n as nat) == index as nat + 1);
            }
            pos = n;
            index = index + 1;
        }
    }
    proof {
        assert(plaintext@.skip(n as int) =~= Seq::<u8>::empty());
        assert(out@ + chunks_ct(key@, plaintext@.skip(n as int), padding as nat, index) =~= out@);
    }
    Ok((out, key))
}

} // verus!
