//! Content hashing: the 256-bit digest that content addressing is built
//! on. Identical bytes always yield an identical digest.

use vstd::prelude::*;

verus! {

/// The 32-byte content digest of a byte sequence.
pub uninterp spec fn hash_of(b: Seq<u8>) -> Seq<u8>;

/// Hashing is deterministic: any two digests of the same byte sequence
/// are the one value `hash_of` assigns to it, so hashing twice yields
/// identical results.
pub proof fn lemma_hash_deterministic(h1: Seq<u8>, h2: Seq<u8>, b: Seq<u8>)
    requires
        h1 == hash_of(b),
        h2 == hash_of(b),
    ensures
        h1 == h2,
{
}

/// Relies on blake3::hash: a 32-byte digest determined by the input
/// bytes alone.
#[verifier::external_body]
pub fn hash_bytes(b: &[u8]) -> (h: Vec<u8>)
    ensures
        h@ == hash_of(b@),
        h@.len() == 32,
{
    blake3::hash(b).as_bytes().to_vec()
}

} // verus!
