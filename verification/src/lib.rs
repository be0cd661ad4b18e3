//! Multi-tenant envelope-encryption key manager.
//!
//! Tenant data keys are wrapped under a process-wide master key before they
//! are persisted, and unwrapped only transiently to perform a cipher
//! operation. Every store operation is scoped to the caller's verified
//! identity, so one tenant can never see or mutate another tenant's rows.

use vstd::prelude::*;

pub mod aead;
pub mod aes;
pub mod api;
pub mod b64;
pub mod claims;
pub mod dto;
pub mod errors;
pub mod hashing;
pub mod history;
pub mod keys;
pub mod keywrap;
pub mod ops;
mod rng;

verus! {

/// Length in bytes of a data key or of the master key.
pub const KEY_LEN: usize = 32;

/// Length in bytes of an AES-256-GCM nonce.
pub const NONCE_LEN: usize = 12;

/// Length in bytes of an AES-256-GCM authentication tag.
pub const TAG_LEN: usize = 16;

/// Compares two text slices by their character sequences.
pub fn str_eq(a: &str, b: &str) -> (r: bool)
    ensures
        r == (a@ == b@),
{
    let x: String = a.to_owned();
    let y: String = b.to_owned();
    x == y
}

} // verus!
