//! The stateless hashing operations: SHA-256 content hashing and Argon2
//! password hashing and verification.

use argon2::password_hash::{PasswordHash, SaltString};
use argon2::{Argon2, PasswordHasher, PasswordVerifier};
use sha2::{Digest, Sha256};
use vstd::prelude::*;
use vstd::string::StringSliceAdditionalSpecFns;
use vstd::utf8::encode_utf8;

use crate::dto::{ArgonOut, ShaOut, TextIn, VerifyIn, VerifyOut};

verus! {

/// How a hashing operation can fail.
pub enum HashError {
    /// A required input is empty.
    Empty,
    /// The supplied hash is not a valid PHC string.
    BadFormat,
    /// The hasher itself reported a failure.
    Internal,
}

/// The SHA-256 digest of a byte string: 32 bytes, a pure function of the
/// input.
pub uninterp spec fn sha256_of(bytes: Seq<u8>) -> Seq<u8>;

/// The lowercase hex text of a byte string, two digits per byte.
pub uninterp spec fn hex_of(b: Seq<u8>) -> Seq<char>;

/// Whether Argon2 password verification accepts this password against
/// this PHC hash string: a pure function of the two texts.
pub uninterp spec fn argon2_verifies(pw: Seq<char>, hash: Seq<char>) -> bool;

/// Whether a text parses as a PHC hash string.
pub uninterp spec fn phc_valid(hash: Seq<char>) -> bool;

/// The longest password the Argon2 crate accepts, its own `MAX_PWD_LEN`
/// of 2^32 - 1 bytes.
pub const ARGON2_MAX_PASSWORD_LEN: u64 = 0xFFFF_FFFF;

/// Relies on sha2's `Sha256::digest`: a 32-byte digest of the text's
/// UTF-8 bytes, depending on nothing but those bytes.
#[verifier::external_body]
fn sha256_digest(text: &str) -> (r: Vec<u8>)
    ensures
        r@ == sha256_of(text.spec_bytes()),
        r@.len() == 32,
{
    Sha256::digest(text.as_bytes()).to_vec()
}

/// Relies on hex::encode: lowercase hex text, two digits for each byte.
#[verifier::external_body]
fn hex_encode(b: &Vec<u8>) -> (r: String)
    ensures
        r@ == hex_of(b@),
        r@.len() == 2 * b@.len(),
{
    hex::encode(b)
}

/// Relies on argon2's `PasswordHasher::hash_password` with default
/// parameters and a fresh random salt: for a password within the crate's
/// own length limit, with a generated recommended-length salt and the
/// default parameters, the hasher cannot fail. The salt is random, so
/// nothing is promised about the text itself beyond what the crate
/// documents: the PHC string is non-empty (it begins with the `$`
/// separator), it parses, and verification accepts the password it was
/// produced from.
#[verifier::external_body]
fn argon2_hash(pw: &str) -> (r: Result<String, ()>)
    requires
        pw.spec_bytes().len() <= ARGON2_MAX_PASSWORD_LEN,
    ensures
        r is Ok,
        r matches Ok(h) ==> h@.len() != 0 && phc_valid(h@) && argon2_verifies(pw@, h@),
{
    let salt = SaltString::generate(&mut rand_core::OsRng);
    match Argon2::default().hash_password(pw.as_bytes(), &salt) {
        Ok(h) => Ok(h.to_string()),
        Err(_) => Err(()),
    }
}

/// Relies on password_hash's `PasswordHash::new` to parse the PHC string
/// and argon2's `PasswordVerifier::verify_password`, whose outcome is a
/// deterministic function of the password and the parsed hash.
#[verifier::external_body]
fn argon2_check(pw: &str, hash: &str) -> (r: Result<bool, ()>)
    ensures
        r is Ok <==> phc_valid(hash@),
        r matches Ok(v) ==> v == argon2_verifies(pw@, hash@),
{
    match PasswordHash::new(hash) {
        Ok(parsed) => Ok(Argon2::default().verify_password(pw.as_bytes(), &parsed).is_ok()),
        Err(_) => Err(()),
    }
}

/// Hashes a non-empty text with SHA-256 and returns the digest as
/// lowercase hex.
pub fn hash_sha256(input: &TextIn) -> (r: Result<ShaOut, HashError>)
    ensures
        (input.text@.len() == 0) <==> (r matches Err(e) && e is Empty),
        r matches Ok(o) ==> o.hash@ == hex_of(sha256_of(encode_utf8(input.text@)))
            && o.hash@.len() == 64,
        r is Ok <==> input.text@.len() != 0,
{
    if input.text.as_str().is_empty() {
        return Err(HashError::Empty);
    }
    let digest = sha256_digest(input.text.as_str());
    Ok(ShaOut { hash: hex_encode(&digest) })
}

/// Hashes a non-empty password with Argon2 under a fresh random salt and
/// returns the PHC string, which verifies against that password. The
/// password must fit the Argon2 crate's own length limit.
pub fn hash_argon2(input: &TextIn) -> (r: Result<ArgonOut, HashError>)
    requires
        encode_utf8(input.text@).len() <= ARGON2_MAX_PASSWORD_LEN,
    ensures
        r is Ok <==> input.text@.len() != 0,
        r matches Ok(o) ==> o.hash@.len() != 0 && phc_valid(o.hash@) && argon2_verifies(
            input.text@,
            o.hash@,
        ),
        r matches Err(e) ==> e is Empty && input.text@.len() == 0,
{
    if input.text.as_str().is_empty() {
        return Err(HashError::Empty);
    }
    match argon2_hash(input.text.as_str()) {
        Ok(hash) => Ok(ArgonOut { hash }),
        Err(_) => Err(HashError::Internal),
    }
}

/// Checks a non-empty password against a PHC hash string. Rejects an
/// unparseable hash; otherwise reports exactly what Argon2 verification
/// decides.
pub fn verify_argon2(input: &VerifyIn) -> (r: Result<VerifyOut, HashError>)
    ensures
        (input.plaintext@.len() == 0 || input.hash@.len() == 0) ==> (r matches Err(e) && e
            is Empty),
        (input.plaintext@.len() != 0 && input.hash@.len() != 0) ==> {
            &&& (r is Ok <==> phc_valid(input.hash@))
            &&& (r matches Err(e) ==> e is BadFormat)
            &&& (r matches Ok(o) ==> o.valid == argon2_verifies(input.plaintext@, input.hash@))
        },
{
    if input.plaintext.as_str().is_empty() || input.hash.as_str().is_empty() {
        return Err(HashError::Empty);
    }
    match argon2_check(input.plaintext.as_str(), input.hash.as_str()) {
        Ok(valid) => Ok(VerifyOut { valid }),
        Err(_) => Err(HashError::BadFormat),
    }
}

} // verus!
