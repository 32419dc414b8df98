//! The encrypted content identifier: a capability descriptor that binds
//! the encrypted blob's tagged hash, the symmetric key, the chunking and
//! padding metadata, and the nested plain identifier of the plaintext.
//!
//! Binary layout, a plain concatenation with no length prefixes:
//! `cidTypeEncrypted(1) || algorithm(1) || chunkSizeExponent(1) ||
//! taggedEncryptedHash(33) || key(32) || padding(little-endian,
//! trailing zeros trimmed, 0..=4 bytes) || nestedPlainCid(rest)`.
//! The two trailing fields carry no width of their own, so a decoder
//! must know from context how long one of them is; the decoder here
//! takes the nested identifier's length.

use vstd::prelude::*;
use vstd::bytes::{spec_u32_to_le_bytes, spec_u32_from_le_bytes, u32_to_le_bytes, u32_from_le_bytes, lemma_auto_spec_u32_to_from_le_bytes};
use vstd::slice::{slice_subrange, slice_to_vec};
use vstd::string::{StrSliceExecFns, StringExecFns};
use crate::cid::{trim_trailing_zeros, trim_trailing};
use crate::zero_bytes;
use crate::b64::{base64url_nopad, base64url_encode, base64url_decode, is_base64url_char};

verus! {

/// Type tag of an encrypted content identifier.
pub const CID_TYPE_ENCRYPTED: u8 = 0xae;

/// Tag byte naming the authenticated cipher of the blob.
pub const ENCRYPTION_ALGORITHM: u8 = 0xa6;

/// The trimmed little-endian padding field.
pub open spec fn padding_field(padding: u32) -> Seq<u8> {
    trim_trailing_zeros(spec_u32_to_le_bytes(padding))
}

/// The padding value a decoder reads from a trimmed field: re-pad with
/// zeros to 4 bytes, then interpret little-endian.
pub open spec fn padding_of_field(f: Seq<u8>) -> u32 {
    spec_u32_from_le_bytes(f + zero_bytes((4 - f.len()) as nat))
}

/// The bytes of the encrypted content identifier.
pub open spec fn encrypted_cid_bytes(
    cid_type_encrypted: u8,
    encryption_algorithm: u8,
    chunk_size_as_power_of_2: u8,
    encrypted_blob_hash: Seq<u8>,
    encryption_key: Seq<u8>,
    padding: u32,
    cid: Seq<u8>,
) -> Seq<u8> {
    seq![cid_type_encrypted, encryption_algorithm, chunk_size_as_power_of_2]
        + encrypted_blob_hash + encryption_key + padding_field(padding) + cid
}

/// The fields a decoder recovers from an encrypted identifier.
pub struct EncryptedCidParts {
    pub cid_type_encrypted: u8,
    pub encryption_algorithm: u8,
    pub chunk_size_as_power_of_2: u8,
    pub encrypted_blob_hash: Vec<u8>,
    pub encryption_key: Vec<u8>,
    pub padding: u32,
    pub cid: Vec<u8>,
}

impl EncryptedCidParts {
    /// The fields as plain mathematical values.
    pub open spec fn view(self) -> (u8, u8, u8, Seq<u8>, Seq<u8>, u32, Seq<u8>) {
        (
            self.cid_type_encrypted,
            self.encryption_algorithm,
            self.chunk_size_as_power_of_2,
            self.encrypted_blob_hash@,
            self.encryption_key@,
            self.padding,
            self.cid@,
        )
    }
}

/// What a decoder recovers from candidate identifier bytes, given the
/// nested plain identifier's length: every field, or nothing if the bytes
/// are too short or the padding field would be wider than 4 bytes.
pub open spec fn parse_encrypted_cid(b: Seq<u8>, cid_len: nat) -> Option<
    (u8, u8, u8, Seq<u8>, Seq<u8>, u32, Seq<u8>),
> {
    if b.len() >= 68 + cid_len && b.len() <= 72 + cid_len {
        let pad_end = b.len() - cid_len;
        Some(
            (
                b[0],
                b[1],
                b[2],
                b.subrange(3, 36),
                b.subrange(36, 68),
                padding_of_field(b.subrange(68, pad_end as int)),
                b.subrange(pad_end as int, b.len() as int),
            ),
        )
    } else {
        None
    }
}

/// Builds the encrypted content identifier from its fields.
///
/// The result is exactly the three tag bytes, the tagged hash and key
/// bytes unchanged, the trimmed little-endian padding amount, and the
/// nested plain identifier.
pub fn create_encrypted_cid(
    cid_type_encrypted: u8,
    encryption_algorithm: u8,
    chunk_size_as_power_of_2: u8,
    encrypted_blob_hash: Vec<u8>,
    encryption_key: Vec<u8>,
    padding: u32,
    cid: Vec<u8>,
) -> (r: Vec<u8>)
    ensures
        r@ == encrypted_cid_bytes(
            cid_type_encrypted,
            encryption_algorithm,
            chunk_size_as_power_of_2,
            encrypted_blob_hash@,
            encryption_key@,
            padding,
            cid@,
        ),
{
    let mut bytes: Vec<u8> = Vec::new();
    bytes.push(cid_type_encrypted);
    bytes.push(encryption_algorithm);
    bytes.push(chunk_size_as_power_of_2);
    bytes.extend_from_slice(encrypted_blob_hash.as_slice());
    bytes.extend_from_slice(encryption_key.as_slice());
    let pad_bytes = trim_trailing(u32_to_le_bytes(padding));
    bytes.extend_from_slice(pad_bytes.as_slice());
    bytes.extend_from_slice(cid.as_slice());
    proof {
        assert(bytes@ == encrypted_cid_bytes(
            cid_type_encrypted,
            encryption_algorithm,
            chunk_size_as_power_of_2,
            encrypted_blob_hash@,
            encryption_key@,
            padding,
            cid@,
        ));
    }
    bytes
}

/// Decodes an encrypted content identifier, given the nested plain
/// identifier's length, recovering every field.
pub fn decode_encrypted_cid(bytes: &Vec<u8>, cid_len: usize) -> (r: Option<EncryptedCidParts>)
    ensures
        r is Some <==> parse_encrypted_cid(bytes@, cid_len as nat) is Some,
        r is Some ==> parse_encrypted_cid(bytes@, cid_len as nat) == Some(r->Some_0@),
{
    let n = bytes.len();
    if n < 68 || cid_len > n - 68 || n - 68 - cid_len > 4 {
        return None;
    }
    let pad_end = n - cid_len;
    let encrypted_blob_hash = slice_to_vec(slice_subrange(bytes.as_slice(), 3, 36));
    let encryption_key = slice_to_vec(slice_subrange(bytes.as_slice(), 36, 68));
    let mut pad_field = slice_to_vec(slice_subrange(bytes.as_slice(), 68, pad_end));
    let ghost raw_pad = pad_field@;
    pad_field.resize(4, 0u8);
    proof {
        assert(pad_field@ =~= raw_pad + zero_bytes((4 - raw_pad.len()) as nat));
    }
    let padding = u32_from_le_bytes(pad_field.as_slice());
    let cid = slice_to_vec(slice_subrange(bytes.as_slice(), pad_end, n));
    Some(
        EncryptedCidParts {
            cid_type_encrypted: bytes[0],
            encryption_algorithm: bytes[1],
            chunk_size_as_power_of_2: bytes[2],
            encrypted_blob_hash,
            encryption_key,
            padding,
            cid,
        },
    )
}

/// The identifier text of identifier bytes: the multibase marker `u`
/// followed by the unpadded URL-safe base64 of the bytes.
pub open spec fn rendered(b: Seq<u8>) -> Seq<char> {
    seq!['u'] + base64url_nopad(b)
}

/// Renders identifier bytes as text matching `u[A-Za-z0-9_-]*`: the
/// multibase marker `u`, then the unpadded URL-safe base64 payload.
pub fn render_encrypted_cid(bytes: &Vec<u8>) -> (s: String)
    ensures
        s@ == rendered(bytes@),
        s@.len() >= 1,
        s@[0] == 'u',
        forall|i: int| 1 <= i < s@.len() ==> is_base64url_char(#[trigger] s@[i]),
{
    proof {
        reveal_strlit("u");
    }
    let mut s = String::from_str("u");
    let payload = base64url_encode(bytes.as_slice());
    s.append(payload.as_str());
    proof {
        assert(s@ =~= rendered(bytes@));
    }
    s
}

/// Parses identifier text, given the nested plain identifier's length.
///
/// For text rendered from identifier bytes `b`, this succeeds exactly
/// when decoding `b` would, and recovers the same fields; and it only
/// ever succeeds on text that is the rendering of decodable identifier
/// bytes.
pub fn parse_encrypted_cid_text(s: &str, cid_len: usize) -> (r: Option<EncryptedCidParts>)
    ensures
        forall|b: Seq<u8>|
            s@ == rendered(b) ==> {
                &&& (r is Some <==> parse_encrypted_cid(b, cid_len as nat) is Some)
                &&& (r is Some ==> parse_encrypted_cid(b, cid_len as nat) == Some(r->Some_0@))
            },
        r is Some ==> exists|b: Seq<u8>|
            s@ == rendered(b) && parse_encrypted_cid(b, cid_len as nat) == Some(r->Some_0@),
{
    let n = s.unicode_len();
    if n < 1 {
        proof {
            assert forall|b: Seq<u8>| s@ != rendered(b) by {
                assert(rendered(b).len() >= 1);
            }
        }
        return None;
    }
    if s.get_char(0) != 'u' {
        proof {
            assert forall|b: Seq<u8>| s@ != rendered(b) by {
                assert(rendered(b)[0] == 'u');
            }
        }
        return None;
    }
    let payload = s.substring_char(1, n);
    proof {
        assert forall|b: Seq<u8>| s@ == rendered(b) implies payload@ == base64url_nopad(b) by {
            assert(rendered(b).subrange(1, rendered(b).len() as int) =~= base64url_nopad(b));
        }
    }
    match base64url_decode(payload) {
        None => {
            return None;
        },
        Some(bytes) => {
            let r = decode_encrypted_cid(&bytes, cid_len);
            proof {
                assert forall|b: Seq<u8>| s@ == rendered(b) implies bytes@ == b by {
                    assert(base64url_nopad(b) == payload@);
                }
                assert(s@ =~= rendered(bytes@));
                if r is Some {
                    assert(exists|b: Seq<u8>|
                        s@ == rendered(b) && parse_encrypted_cid(b, cid_len as nat) == Some(
                            r->Some_0@,
                        )) by {
                        assert(s@ == rendered(bytes@) && parse_encrypted_cid(
                            bytes@,
                            cid_len as nat,
                        ) == Some(r->Some_0@));
                    }
                }
            }
            return r;
        },
    }
}

/// Decoding a built encrypted identifier, given the nested identifier's
/// length, recovers every field exactly.
pub proof fn lemma_encrypted_cid_round_trip(
    cid_type_encrypted: u8,
    encryption_algorithm: u8,
    chunk_size_as_power_of_2: u8,
    encrypted_blob_hash: Seq<u8>,
    encryption_key: Seq<u8>,
    padding: u32,
    cid: Seq<u8>,
)
    requires
        encrypted_blob_hash.len() == 33,
        encryption_key.len() == 32,
    ensures
        parse_encrypted_cid(
            encrypted_cid_bytes(
                cid_type_encrypted,
                encryption_algorithm,
                chunk_size_as_power_of_2,
                encrypted_blob_hash,
                encryption_key,
                padding,
                cid,
            ),
            cid.len(),
        ) == Some(
            (
                cid_type_encrypted,
                encryption_algorithm,
                chunk_size_as_power_of_2,
                encrypted_blob_hash,
                encryption_key,
                padding,
                cid,
            ),
        ),
{
    lemma_auto_spec_u32_to_from_le_bytes();
    crate::cid::lemma_trim_then_pad(spec_u32_to_le_bytes(padding));
    let b = encrypted_cid_bytes(
        cid_type_encrypted,
        encryption_algorithm,
        chunk_size_as_power_of_2,
        encrypted_blob_hash,
        encryption_key,
        padding,
        cid,
    );
    let pf = padding_field(padding);
    assert(b.len() == 68 + pf.len() + cid.len());
    let pad_end = b.len() - cid.len();
    assert(b.subrange(3, 36) =~= encrypted_blob_hash);
    assert(b.subrange(36, 68) =~= encryption_key);
    assert(b.subrange(68, pad_end as int) =~= pf);
    assert(b.subrange(pad_end as int, b.len() as int) =~= cid);
    assert(pf + zero_bytes((4 - pf.len()) as nat) == spec_u32_to_le_bytes(padding));
    assert(padding_of_field(pf) == padding);
}

} // verus!
