//! Unpadded URL-safe base64 text encoding, the rendering used for the
//! externally visible identifier text.

use vstd::prelude::*;
use base64::Engine;

verus! {

/// The unpadded URL-safe base64 rendering of a byte sequence.
pub uninterp spec fn base64url_nopad(b: Seq<u8>) -> Seq<char>;

/// A character of the URL-safe base64 alphabet.
pub open spec fn is_base64url_char(c: char) -> bool {
    ('A' <= c && c <= 'Z') || ('a' <= c && c <= 'z') || ('0' <= c && c <= '9') || c == '-'
        || c == '_'
}

/// Relies on base64's `URL_SAFE_NO_PAD` engine: it encodes to the ASCII
/// URL-safe alphabet (`A-Z a-z 0-9 - _`) with no padding characters, so
/// the output length is `ceil(4 * len / 3)` and the result depends on the
/// input bytes alone.
#[verifier::external_body]
pub fn base64url_encode(b: &[u8]) -> (s: String)
    ensures
        s@ == base64url_nopad(b@),
        s@.len() == (b@.len() * 4 + 2) / 3,
        forall|i: int| 0 <= i < s@.len() ==> is_base64url_char(#[trigger] s@[i]),
        vstd::utf8::is_ascii_chars(s@),
{
    base64::engine::general_purpose::URL_SAFE_NO_PAD.encode(b)
}

/// Relies on base64's `URL_SAFE_NO_PAD` engine: decoding inverts
/// encoding, and the engine's default config rejects invalid characters,
/// padding, and non-canonical trailing bits, so a string that is the
/// encoding of some byte sequence decodes to exactly that sequence.
#[verifier::external_body]
pub fn base64url_decode(s: &str) -> (r: Option<Vec<u8>>)
    ensures
        forall|b: Seq<u8>| base64url_nopad(b) == s@ ==> r is Some && r->Some_0@ == b,
        r is Some ==> s@ == base64url_nopad(r->Some_0@),
{
    match base64::engine::general_purpose::URL_SAFE_NO_PAD.decode(s) {
        Ok(v) => Some(v),
        Err(_) => None,
    }
}

} // verus!
