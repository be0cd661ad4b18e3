//! Fresh randomness for nonces and key material.

use vstd::prelude::*;

verus! {

/// Relies on rand's `OsRng::fill_bytes`: it fills the whole buffer from the
/// operating system's entropy source. Nothing can be promised about the
/// bytes themselves, only about how many there are.
#[verifier::external_body]
pub(crate) fn random_bytes(n: usize) -> (r: Vec<u8>)
    ensures
        r@.len() == n,
{
    let mut buf = vec![0u8; n];
    rand::RngCore::fill_bytes(&mut rand::rngs::OsRng, &mut buf);
    buf
}

} // verus!
