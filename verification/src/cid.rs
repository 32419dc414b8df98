//! Plain content identifiers: a self-describing binary pairing of a
//! content hash with the blob's size.
//!
//! Layout: `[CID_TYPE_PLAIN][HASH_TAG][hash (32 bytes)][size]`, where the
//! size is its 8-byte little-endian form with trailing zero bytes
//! stripped. A decoder re-pads the trimmed field with zeros to 8 bytes; an
//! entirely absent size field means size zero.

use vstd::prelude::*;
use vstd::bytes::{spec_u64_to_le_bytes, spec_u64_from_le_bytes, u64_to_le_bytes, u64_from_le_bytes, lemma_auto_spec_u64_to_from_le_bytes};
use crate::zero_bytes;

verus! {

/// Type tag of a plain (unencrypted) content identifier.
pub const CID_TYPE_PLAIN: u8 = 0x26;

/// Tag byte naming the hash function that produced the digest that follows.
pub const HASH_TAG: u8 = 0x1f;

/// The little-endian encoding with its trailing zero bytes stripped.
pub open spec fn trim_trailing_zeros(s: Seq<u8>) -> Seq<u8>
    decreases s.len(),
{
    if s.len() == 0 {
        s
    } else if s.last() == 0u8 {
        trim_trailing_zeros(s.drop_last())
    } else {
        s
    }
}

/// The trimmed little-endian size field of a plain identifier.
pub open spec fn size_field(size: u64) -> Seq<u8> {
    trim_trailing_zeros(spec_u64_to_le_bytes(size))
}

/// The bytes of the plain content identifier for `(hash, size)`.
pub open spec fn plain_cid(hash: Seq<u8>, size: u64) -> Seq<u8> {
    seq![CID_TYPE_PLAIN, HASH_TAG] + hash + size_field(size)
}

/// The size value a decoder reads from a trimmed little-endian field:
/// re-pad with zeros to 8 bytes, then interpret little-endian.
pub open spec fn size_of_field(f: Seq<u8>) -> u64 {
    spec_u64_from_le_bytes(f + zero_bytes((8 - f.len()) as nat))
}

/// What a decoder recovers from candidate identifier bytes: the 32-byte
/// hash and the size, or nothing if the framing is not that of a plain
/// identifier.
pub open spec fn parse_plain_cid(b: Seq<u8>) -> Option<(Seq<u8>, u64)> {
    if b.len() >= 34 && b.len() <= 42 && b[0] == CID_TYPE_PLAIN && b[1] == HASH_TAG {
        Some((b.subrange(2, 34), size_of_field(b.subrange(34, b.len() as int))))
    } else {
        None
    }
}

/// Strips trailing zero bytes from a little-endian field.
pub fn trim_trailing(v: Vec<u8>) -> (r: Vec<u8>)
    ensures
        r@ == trim_trailing_zeros(v@),
{
    let mut v = v;
    let ghost orig = v@;
    loop
        invariant
            trim_trailing_zeros(v@) == trim_trailing_zeros(orig),
        ensures
            v@ == trim_trailing_zeros(orig),
        decreases v@.len(),
    {
        let n = v.len();
        if n == 0 {
            break;
        }
        if v[n - 1] != 0 {
            break;
        }
        proof {
            assert(v@.drop_last() == v@.subrange(0, n - 1));
        }
        v.pop();
    }
    v
}

/// Builds the plain content identifier for a content hash and a file size.
///
/// The result is exactly the tag bytes, the hash bytes unchanged, and the
/// trimmed little-endian size.
pub fn hash_bytes_to_cid(hash: Vec<u8>, file_size: u64) -> (r: Vec<u8>)
    ensures
        r@ == plain_cid(hash@, file_size),
{
    let mut bytes: Vec<u8> = Vec::new();
    bytes.push(CID_TYPE_PLAIN);
    bytes.push(HASH_TAG);
    bytes.extend_from_slice(hash.as_slice());
    let size_bytes = trim_trailing(u64_to_le_bytes(file_size));
    bytes.extend_from_slice(size_bytes.as_slice());
    proof {
        assert(bytes@ == plain_cid(hash@, file_size));
    }
    bytes
}

/// Decodes a plain content identifier, recovering the hash and the size.
///
/// Returns `None` exactly when the bytes do not have the framing of a
/// plain identifier (tag bytes, 32-byte hash, size field of at most 8
/// bytes).
pub fn decode_cid(bytes: &Vec<u8>) -> (r: Option<(Vec<u8>, u64)>)
    ensures
        parse_plain_cid(bytes@) matches Some(p) ==> (r matches Some(q) && q.0@ == p.0 && q.1 == p.1),
        parse_plain_cid(bytes@) is None ==> r is None,
{
    let n = bytes.len();
    if n < 34 || n > 42 || bytes[0] != CID_TYPE_PLAIN || bytes[1] != HASH_TAG {
        return None;
    }
    let mut hash: Vec<u8> = Vec::new();
    let mut i: usize = 2;
    while i < 34
        invariant
            2 <= i <= 34,
            n == bytes@.len(),
            34 <= n <= 42,
            hash@ == bytes@.subrange(2, i as int),
        decreases 34 - i,
    {
        hash.push(bytes[i]);
        proof {
            assert(bytes@.subrange(2, i + 1) == bytes@.subrange(2, i as int).push(bytes@[i as int]));
        }
        i = i + 1;
    }
    let mut field: Vec<u8> = Vec::new();
    let mut j: usize = 34;
    while j < n
        invariant
            34 <= j <= n,
            n == bytes@.len(),
            34 <= n <= 42,
            field@ == bytes@.subrange(34, j as int),
        decreases n - j,
    {
        field.push(bytes[j]);
        proof {
            assert(bytes@.subrange(34, j + 1) == bytes@.subrange(34, j as int).push(bytes@[j as int]));
        }
        j = j + 1;
    }
    let ghost raw_field = field@;
    field.resize(8, 0u8);
    proof {
        assert(field@ =~= raw_field + zero_bytes((8 - raw_field.len()) as nat));
        assert(field@ == bytes@.subrange(34, bytes@.len() as int)
            + zero_bytes((8 - (bytes@.len() - 34)) as nat));
    }
    let size = u64_from_le_bytes(field.as_slice());
    Some((hash, size))
}

/// Padding the trimmed form back out with zeros restores the original
/// little-endian bytes.
pub proof fn lemma_trim_then_pad(s: Seq<u8>)
    ensures
        trim_trailing_zeros(s).len() <= s.len(),
        trim_trailing_zeros(s) + zero_bytes((s.len() - trim_trailing_zeros(s).len()) as nat) == s,
    decreases s.len(),
{
    if s.len() == 0 {
        assert(trim_trailing_zeros(s) + zero_bytes(0) =~= s);
    } else if s.last() == 0u8 {
        let dl = s.drop_last();
        lemma_trim_then_pad(dl);
        let t = trim_trailing_zeros(s);
        assert(t == trim_trailing_zeros(dl));
        let k = (dl.len() - t.len()) as nat;
        assert(t + zero_bytes(k) == dl);
        assert forall|i: int| 0 <= i < s.len() implies (t + zero_bytes((k + 1) as nat))[i] == s[i] by {
            if i < dl.len() {
                assert((t + zero_bytes(k))[i] == dl[i]);
                assert(s[i] == dl[i]);
            } else {
                assert(s[i] == s.last());
            }
        }
        assert(t + zero_bytes((k + 1) as nat) =~= s);
    } else {
        assert(trim_trailing_zeros(s) + zero_bytes(0) =~= s);
    }
}

/// Decoding a built plain identifier recovers the hash and the size
/// exactly.
pub proof fn lemma_cid_round_trip(hash: Seq<u8>, size: u64)
    requires
        hash.len() == 32,
    ensures
        parse_plain_cid(plain_cid(hash, size)) == Some((hash, size)),
{
    lemma_auto_spec_u64_to_from_le_bytes();
    lemma_trim_then_pad(spec_u64_to_le_bytes(size));
    let b = plain_cid(hash, size);
    assert(b.len() == 34 + size_field(size).len());
    assert(b.subrange(2, 34) =~= hash);
    assert(b.subrange(34, b.len() as int) =~= size_field(size));
    assert(size_field(size) + zero_bytes((8 - size_field(size).len()) as nat)
        == spec_u64_to_le_bytes(size));
    assert(size_of_field(size_field(size)) == size);
}

} // verus!
