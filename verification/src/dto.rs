//! Request and response value types for the cipher, hashing and history
//! operations.

use vstd::prelude::*;

verus! {

/// A text payload to hash or encrypt.
pub struct TextIn {
    pub text: String,
}

/// A content hash, as lowercase hex text.
pub struct ShaOut {
    pub hash: String,
}

/// A password hash in PHC string format.
pub struct ArgonOut {
    pub hash: String,
}

/// A password and a PHC hash string to check it against.
pub struct VerifyIn {
    pub plaintext: String,
    pub hash: String,
}

/// Whether the password matched the hash.
pub struct VerifyOut {
    pub valid: bool,
}

/// An encrypted payload: nonce, ciphertext and tag as base64 text, the id
/// of the data key that sealed it, and the format version.
pub struct EncOut {
    pub scheme: String,
    pub iv: String,
    pub ct: String,
    pub tag: String,
    pub version: i16,
    pub key_id: u64,
}

/// A payload to decrypt. The caller may name the data key explicitly;
/// otherwise the identity's active key is used.
pub struct DecIn {
    pub iv: String,
    pub ct: String,
    pub tag: String,
    pub version: Option<i16>,
    pub key_id: Option<u64>,
}

/// A decrypted payload.
pub struct DecOut {
    pub plaintext: String,
}

/// One audit-log entry as listed back to its owner.
pub struct HistoryItem {
    pub id: u64,
    pub kind: String,
    pub algo: String,
    pub meta_json: String,
    pub created_at: u64,
}

/// An audit-log entry to record.
pub struct SaveHistoryIn {
    pub kind: String,
    pub algo: String,
    pub meta_json: String,
    pub took_ms: Option<i32>,
}

} // verus!
