//! Wrapping and unwrapping of 256-bit data keys under the process-wide
//! master key. A wrapped blob is the standard base64 text of
//! `nonce || ciphertext || tag`, with a 12-byte nonce and a 16-byte tag.

use vstd::prelude::*;

use crate::aead::{aead_open, aead_seal, gcm_open};
use crate::b64::{b64_bytes, b64_decode, b64_encode};
use crate::rng::random_bytes;
use crate::{KEY_LEN, NONCE_LEN, TAG_LEN};

verus! {

/// How wrapping can fail.
pub enum KwError {
    /// The master key secret is missing or is not exactly 256 bits.
    MasterKeyLen,
    /// The wrapped blob is not valid base64 text.
    B64(String),
    /// The blob is too short, fails authentication, or does not hold a
    /// 256-bit key.
    Crypto,
}

/// The master key, held only in process memory and injected into every
/// operation that wraps or unwraps key material.
pub struct MasterKey {
    key: Vec<u8>,
}

impl MasterKey {
    /// The raw 256-bit secret.
    pub closed spec fn bytes(&self) -> Seq<u8> {
        self.key@
    }

    /// A well-formed master key holds exactly 256 bits.
    pub open spec fn wf(&self) -> bool {
        self.bytes().len() == KEY_LEN
    }
}

/// What unwrapping yields for a master key and a wrapped blob: the 256-bit
/// data key if the blob is canonical base64 of `nonce || ciphertext || tag`
/// and the ciphertext authenticates under the master key, `None` otherwise.
pub open spec fn unwrap_spec(mk: Seq<u8>, blob: Seq<char>) -> Option<Seq<u8>> {
    match b64_bytes(blob) {
        Option::None => Option::None,
        Option::Some(raw) => if raw.len() < NONCE_LEN + TAG_LEN {
            Option::None
        } else {
            match gcm_open(mk, raw.take(NONCE_LEN as int), raw.skip(NONCE_LEN as int)) {
                Option::None => Option::None,
                Option::Some(pt) => if pt.len() == KEY_LEN {
                    Option::Some(pt)
                } else {
                    Option::None
                },
            }
        },
    }
}

/// Builds a master key from its base64-encoded configuration value.
/// Fails unless the text decodes to exactly 32 bytes.
pub fn decode_master_key_b64(s: &str) -> (r: Result<MasterKey, KwError>)
    ensures
        r matches Ok(mk) ==> mk.wf() && b64_bytes(s@) == Some(mk.bytes()),
        r is Ok <==> (b64_bytes(s@) matches Some(b) && b.len() == KEY_LEN),
        r matches Err(e) ==> (e is B64 <==> b64_bytes(s@) is None),
        r matches Err(e) ==> (e is MasterKeyLen <==> (b64_bytes(s@) matches Some(b) && b.len()
            != KEY_LEN)),
{
    let raw = match b64_decode(s) {
        Ok(v) => v,
        Err(m) => {
            return Err(KwError::B64(m));
        },
    };
    if raw.len() != KEY_LEN {
        return Err(KwError::MasterKeyLen);
    }
    Ok(MasterKey { key: raw })
}

/// Wraps a 256-bit data key under the master key: seals it with a fresh
/// random nonce and encodes `nonce || ciphertext || tag` as base64 text.
/// Unwrapping the result under the same master key gives the data key
/// back, and the blob always decodes to exactly 12 + 32 + 16 = 60 bytes.
pub fn wrap_key_v1(mk: &MasterKey, dk: &Vec<u8>) -> (r: String)
    requires
        mk.wf(),
        dk@.len() == KEY_LEN,
    ensures
        unwrap_spec(mk.bytes(), r@) == Some(dk@),
        b64_bytes(r@) matches Some(raw) && raw.len() == NONCE_LEN + KEY_LEN + TAG_LEN,
{
    let nonce = random_bytes(NONCE_LEN);
    let mut ct = aead_seal(&mk.key, &nonce, dk.as_slice());
    let mut raw = nonce;
    let ghost nonce_view = raw@;
    let ghost ct_view = ct@;
    raw.append(&mut ct);
    let out = b64_encode(&raw);
    proof {
        assert(raw@.take(NONCE_LEN as int) =~= nonce_view);
        assert(raw@.skip(NONCE_LEN as int) =~= ct_view);
    }
    out
}

/// Unwraps a blob produced by `wrap_key_v1`: decodes the base64 text,
/// splits off the 12-byte nonce, authenticates the remainder under the
/// master key, and accepts only a 256-bit plaintext. Succeeds exactly when
/// `unwrap_spec` yields a key, and then returns that key.
pub fn unwrap_key_v1(mk: &MasterKey, wrapped_b64: &str) -> (r: Result<Vec<u8>, KwError>)
    requires
        mk.wf(),
    ensures
        r matches Ok(dk) ==> unwrap_spec(mk.bytes(), wrapped_b64@) == Some(dk@)
            && dk@.len() == KEY_LEN,
        r is Ok <==> unwrap_spec(mk.bytes(), wrapped_b64@) is Some,
        r matches Err(e) ==> (e is B64 <==> b64_bytes(wrapped_b64@) is None),
        r matches Err(e) ==> (e is Crypto <==> b64_bytes(wrapped_b64@) is Some),
        r matches Err(e) ==> !(e is MasterKeyLen),
{
    let mut raw = match b64_decode(wrapped_b64) {
        Ok(v) => v,
        Err(m) => {
            return Err(KwError::B64(m));
        },
    };
    if raw.len() < NONCE_LEN + TAG_LEN {
        return Err(KwError::Crypto);
    }
    let rest = raw.split_off(NONCE_LEN);
    let ghost raw_view = b64_bytes(wrapped_b64@)->Some_0;
    proof {
        assert(raw@ =~= raw_view.take(NONCE_LEN as int));
        assert(rest@ =~= raw_view.skip(NONCE_LEN as int));
    }
    match aead_open(&mk.key, &raw, &rest) {
        Option::None => Err(KwError::Crypto),
        Option::Some(pt) => {
            if pt.len() == KEY_LEN {
                Ok(pt)
            } else {
                Err(KwError::Crypto)
            }
        },
    }
}

} // verus!
