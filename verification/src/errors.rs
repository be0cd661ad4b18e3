//! The closed set of error kinds the core reports. Failures that touch key
//! material or decryption are deliberately opaque, so that a caller cannot
//! use the error as an oracle.

use vstd::prelude::*;

use crate::keywrap::KwError;

verus! {

/// Every failure a key-store or payload-cipher operation can report.
pub enum ApiError {
    /// A request field is missing, empty or malformed.
    ValidationError,
    /// The plaintext exceeds the fixed size ceiling.
    PayloadTooLarge,
    /// No key row with the requested id is visible to this identity.
    /// Deliberately does not distinguish "absent" from "owned by another
    /// tenant".
    NotFound,
    /// The master key secret is missing or malformed.
    MasterKeyUnavailable,
    /// A stored wrapped blob failed to decode or authenticate.
    WrapIntegrityFailure,
    /// The ciphertext could not be decrypted. Deliberately carries no
    /// detail about why.
    DecryptionFailed,
    /// An active key for this owner and purpose already exists, so no new
    /// one was minted.
    AlreadyActive,
}

/// Maps a key-wrapping failure into the public error taxonomy: a bad
/// master secret is a configuration failure, everything else is data
/// corruption.
pub fn kw_error_to_api(e: KwError) -> (r: ApiError)
    ensures
        e is MasterKeyLen ==> r is MasterKeyUnavailable,
        !(e is MasterKeyLen) ==> r is WrapIntegrityFailure,
{
    match e {
        KwError::MasterKeyLen => ApiError::MasterKeyUnavailable,
        KwError::B64(_) => ApiError::WrapIntegrityFailure,
        KwError::Crypto => ApiError::WrapIntegrityFailure,
    }
}

} // verus!
