//! The stateless authenticated-encryption primitive: AES-256-GCM with a
//! 96-bit nonce and a 128-bit tag appended to the ciphertext.

use aes_gcm::aead::{Aead, KeyInit};
use aes_gcm::{Aes256Gcm, Key, Nonce};
use vstd::prelude::*;

use crate::{KEY_LEN, NONCE_LEN, TAG_LEN};

verus! {

/// Upper bound on one AES-GCM message, the cipher's own `P_MAX` limit of
/// 2^36 bytes.
pub const GCM_MAX_PLAINTEXT_LEN: u64 = 0x10_0000_0000;

/// The ciphertext-and-tag that AES-256-GCM produces for a key, nonce and
/// plaintext; the 16-byte authentication tag follows the ciphertext.
pub uninterp spec fn seal_ct(key: Seq<u8>, nonce: Seq<u8>, pt: Seq<u8>) -> Seq<u8>;

/// What AES-256-GCM decryption returns for a key, nonce and
/// ciphertext-and-tag: the plaintext when the trailing tag authenticates,
/// `None` otherwise.
pub uninterp spec fn gcm_open(key: Seq<u8>, nonce: Seq<u8>, data: Seq<u8>) -> Option<Seq<u8>>;

/// Relies on aes_gcm's `Aes256Gcm::encrypt`: for a 32-byte key, a 12-byte
/// nonce and a plaintext within the cipher's size limit it returns the
/// ciphertext with the tag appended, and decrypting that result under the
/// same key and nonce yields the plaintext again.
#[verifier::external_body]
pub(crate) fn aead_seal(key: &Vec<u8>, nonce: &Vec<u8>, pt: &[u8]) -> (r: Vec<u8>)
    requires
        key@.len() == KEY_LEN,
        nonce@.len() == NONCE_LEN,
        pt@.len() <= GCM_MAX_PLAINTEXT_LEN,
    ensures
        r@ == seal_ct(key@, nonce@, pt@),
        r@.len() == pt@.len() + TAG_LEN,
        gcm_open(key@, nonce@, r@) == Some(pt@),
{
    let cipher = Aes256Gcm::new(Key::<Aes256Gcm>::from_slice(key));
    cipher
        .encrypt(Nonce::from_slice(nonce), pt)
        .expect("plaintext is within the AES-GCM size limit")
}

/// Relies on aes_gcm's `Aes256Gcm::decrypt`: it authenticates the trailing
/// 16-byte tag and returns the plaintext exactly when the tag matches what
/// encryption under this key and nonce would have produced.
#[verifier::external_body]
pub(crate) fn aead_open(key: &Vec<u8>, nonce: &Vec<u8>, data: &Vec<u8>) -> (r: Option<Vec<u8>>)
    requires
        key@.len() == KEY_LEN,
        nonce@.len() == NONCE_LEN,
    ensures
        match r {
            Some(pt) => gcm_open(key@, nonce@, data@) == Some(pt@)
                && data@.len() == pt@.len() + TAG_LEN,
            None => gcm_open(key@, nonce@, data@) is None,
        },
{
    let cipher = Aes256Gcm::new(Key::<Aes256Gcm>::from_slice(key));
    cipher.decrypt(Nonce::from_slice(nonce), data.as_slice()).ok()
}

} // verus!
