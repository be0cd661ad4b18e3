//! AES-256-GCM payload encryption with each piece (nonce, ciphertext, tag)
//! carried as standard base64 text.

use vstd::prelude::*;

use crate::aead::{aead_open, aead_seal, gcm_open, seal_ct, GCM_MAX_PLAINTEXT_LEN};
use crate::b64::{b64_bytes, b64_decode, b64_encode, b64_of};
use crate::rng::random_bytes;
use crate::{KEY_LEN, NONCE_LEN, TAG_LEN};

verus! {

/// How a payload cipher operation can fail.
pub enum AesError {
    /// The key text does not decode to exactly 256 bits.
    BadKey,
    /// A piece of the input is not valid base64 text.
    B64(String),
    /// A piece has the wrong length or the ciphertext fails to
    /// authenticate. Deliberately carries no further detail.
    Crypto,
}

/// What decrypting a `(iv, ct, tag)` triple of base64 texts under a key
/// yields: the plaintext when all three decode, the nonce and tag have
/// their fixed lengths, and the tag authenticates; `None` otherwise.
pub open spec fn dec_spec(key: Seq<u8>, iv: Seq<char>, ct: Seq<char>, tag: Seq<char>) -> Option<
    Seq<u8>,
> {
    match b64_bytes(iv) {
        Option::None => Option::None,
        Option::Some(n) => if n.len() != NONCE_LEN {
            Option::None
        } else {
            match b64_bytes(ct) {
                Option::None => Option::None,
                Option::Some(c) => match b64_bytes(tag) {
                    Option::None => Option::None,
                    Option::Some(g) => if g.len() != TAG_LEN {
                        Option::None
                    } else {
                        gcm_open(key, n, c + g)
                    },
                },
            }
        },
    }
}

/// True when the base64 decode failures of the pieces, examined in the
/// order the decrypt operation examines them, surface as a base64 error
/// rather than as the opaque crypto error.
pub open spec fn dec_err_is_b64(iv: Seq<char>, ct: Seq<char>, tag: Seq<char>) -> bool {
    ||| b64_bytes(iv) is None
    ||| {
        &&& b64_bytes(iv) matches Some(n)
        &&& n.len() == NONCE_LEN
        &&& (b64_bytes(ct) is None || (b64_bytes(ct) is Some && b64_bytes(tag) is None))
    }
}

/// Decodes a base64 text that must hold exactly a 256-bit key. The text
/// is taken exactly as given: surrounding whitespace is the caller's to
/// strip before the call.
pub fn decode_key_32_from_b64(s: &str) -> (r: Result<Vec<u8>, AesError>)
    ensures
        r matches Ok(k) ==> b64_bytes(s@) == Some(k@) && k@.len() == KEY_LEN,
        r is Ok <==> (b64_bytes(s@) matches Some(b) && b.len() == KEY_LEN),
        r matches Err(e) ==> (e is B64 <==> b64_bytes(s@) is None),
        r matches Err(e) ==> (e is BadKey <==> (b64_bytes(s@) matches Some(b) && b.len()
            != KEY_LEN)) && !(e is Crypto),
{
    let bytes = match b64_decode(s) {
        Ok(v) => v,
        Err(m) => {
            return Err(AesError::B64(m));
        },
    };
    if bytes.len() != KEY_LEN {
        return Err(AesError::BadKey);
    }
    Ok(bytes)
}

/// Encrypts a plaintext under a 256-bit key with a fresh random 12-byte
/// nonce and returns `(iv, ct, tag)`, each as base64 text. Decrypting the
/// triple under the same key yields the plaintext again.
pub fn encrypt_aes256_gcm(key: &Vec<u8>, plaintext: &[u8]) -> (r: Result<
    (String, String, String),
    AesError,
>)
    requires
        key@.len() == KEY_LEN,
        plaintext@.len() <= GCM_MAX_PLAINTEXT_LEN,
    ensures
        r is Ok,
        r matches Ok(t) ==> dec_spec(key@, t.0@, t.1@, t.2@) == Some(plaintext@),
        r matches Ok(t) ==> {
            &&& b64_bytes(t.0@) matches Some(n) && n.len() == NONCE_LEN
            &&& b64_bytes(t.1@) matches Some(c) && c.len() == plaintext@.len()
            &&& b64_bytes(t.2@) matches Some(g) && g.len() == TAG_LEN
            &&& t.0@.len() == 16
            &&& t.1@.len() == ((plaintext@.len() + 2) / 3) * 4
            &&& t.2@.len() == 24
        },
        r matches Ok(t) ==> (exists|n: Seq<u8>|
            {
                &&& n.len() == NONCE_LEN
                &&& t.0@ == b64_of(n)
                &&& t.1@ == b64_of(seal_ct(key@, n, plaintext@).take(plaintext@.len() as int))
                &&& t.2@ == b64_of(seal_ct(key@, n, plaintext@).skip(plaintext@.len() as int))
            }),
{
    let iv = random_bytes(NONCE_LEN);
    let mut ct = aead_seal(key, &iv, plaintext);
    let ghost sealed = ct@;
    let tag = ct.split_off(ct.len() - TAG_LEN);
    let iv_b64 = b64_encode(&iv);
    let ct_b64 = b64_encode(&ct);
    let tag_b64 = b64_encode(&tag);
    proof {
        assert(ct@ =~= sealed.take(plaintext@.len() as int));
        assert(tag@ =~= sealed.skip(plaintext@.len() as int));
        assert(ct@ + tag@ =~= sealed);
        assert(dec_spec(key@, iv_b64@, ct_b64@, tag_b64@) == Some(plaintext@));
    }
    Ok((iv_b64, ct_b64, tag_b64))
}

/// Decrypts an `(iv, ct, tag)` triple of base64 texts under a 256-bit key.
/// Succeeds exactly when `dec_spec` yields a plaintext, and then returns
/// that plaintext; all cipher-level failures collapse into one opaque
/// error.
pub fn decrypt_aes256_gcm(key: &Vec<u8>, iv_b64: &str, ct_b64: &str, tag_b64: &str) -> (r: Result<
    Vec<u8>,
    AesError,
>)
    requires
        key@.len() == KEY_LEN,
    ensures
        r matches Ok(pt) ==> dec_spec(key@, iv_b64@, ct_b64@, tag_b64@) == Some(pt@),
        r is Ok <==> dec_spec(key@, iv_b64@, ct_b64@, tag_b64@) is Some,
        r matches Err(e) ==> (e is B64 <==> dec_err_is_b64(iv_b64@, ct_b64@, tag_b64@)) && !(e
            is BadKey),
{
    let iv = match b64_decode(iv_b64) {
        Ok(v) => v,
        Err(m) => {
            return Err(AesError::B64(m));
        },
    };
    if iv.len() != NONCE_LEN {
        return Err(AesError::Crypto);
    }
    let mut data = match b64_decode(ct_b64) {
        Ok(v) => v,
        Err(m) => {
            return Err(AesError::B64(m));
        },
    };
    let mut tag = match b64_decode(tag_b64) {
        Ok(v) => v,
        Err(m) => {
            return Err(AesError::B64(m));
        },
    };
    if tag.len() != TAG_LEN {
        return Err(AesError::Crypto);
    }
    let ghost ct_view = data@;
    let ghost tag_view = tag@;
    data.append(&mut tag);
    proof {
        assert(data@ =~= ct_view + tag_view);
    }
    match aead_open(key, &iv, &data) {
        Option::None => Err(AesError::Crypto),
        Option::Some(pt) => Ok(pt),
    }
}

} // verus!
