//! The caller's verified identity, produced by an external authentication
//! collaborator and passed by reference into every core operation.

use vstd::prelude::*;

verus! {

/// An already-validated identity context. The subject is the tenant
/// identifier (a 128-bit id); every store operation filters rows by it.
pub struct Claims {
    pub sub: u128,
}

} // verus!
