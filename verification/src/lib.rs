//! Content-addressed encrypted blob pipeline.
//!
//! Converts an arbitrary-length byte stream into an encrypted blob
//! (fixed-size chunks, each sealed with an authenticated cipher under a
//! single fresh key and an index-derived nonce) and builds self-describing
//! binary content identifiers for both the plaintext and the encrypted
//! blob, ending in a capability-bearing encrypted identifier that embeds
//! the decryption key.

pub mod b64;
pub mod cid;
pub mod cipher;
pub mod encrypted_cid;
pub mod hasher;
pub mod pipeline;
pub mod registry;

use vstd::prelude::*;

verus! {

/// Plaintext chunk size of the blob cipher: 2^18 bytes.
pub const CHUNK_SIZE: usize = 262144;

/// `CHUNK_SIZE` as a power of two, recorded inside the encrypted identifier
/// so a decoder can recover chunk boundaries.
pub const CHUNK_SIZE_AS_POWER_OF_2: u8 = 18;

/// A sequence of `n` zero bytes: the deterministic filler used both for
/// re-padding trimmed little-endian fields and as chunk padding.
pub open spec fn zero_bytes(n: nat) -> Seq<u8> {
    Seq::new(n, |i: int| 0u8)
}

} // verus!
