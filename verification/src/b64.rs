//! Standard base64 text encoding of byte strings, as used for wrapped key
//! blobs and for the pieces of an encrypted payload.

use vstd::prelude::*;

verus! {

/// The canonical standard base64 text (with padding) of a byte string, as
/// `base64`'s `STANDARD` engine produces it.
pub uninterp spec fn b64_of(b: Seq<u8>) -> Seq<char>;

/// What `base64`'s `STANDARD` engine returns when decoding a text: the
/// bytes for exactly the canonical encodings, `None` for every other text.
pub uninterp spec fn b64_bytes(s: Seq<char>) -> Option<Seq<u8>>;

/// Relies on base64's `Engine::encode` with the `STANDARD` engine: it
/// produces the canonical padded encoding of the input — four text
/// characters for every three bytes, rounded up — and decoding that text
/// with the same engine gives the input back.
#[verifier::external_body]
pub(crate) fn b64_encode(b: &Vec<u8>) -> (r: String)
    ensures
        r@ == b64_of(b@),
        b64_bytes(r@) == Some(b@),
        r@.len() == ((b@.len() + 2) / 3) * 4,
{
    base64::Engine::encode(&base64::engine::general_purpose::STANDARD, b)
}

/// Relies on base64's `Engine::decode` with the `STANDARD` engine: it is
/// configured to require canonical padding and reject set trailing bits, so
/// it accepts exactly the texts that `Engine::encode` produces.
#[verifier::external_body]
pub(crate) fn b64_decode(s: &str) -> (r: Result<Vec<u8>, String>)
    ensures
        match r {
            Ok(b) => b64_bytes(s@) == Some(b@) && s@ == b64_of(b@),
            Err(_) => b64_bytes(s@) is None,
        },
{
    base64::Engine::decode(&base64::engine::general_purpose::STANDARD, s)
        .map_err(|e| e.to_string())
}

} // verus!
