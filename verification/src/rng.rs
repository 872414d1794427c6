//! Fresh randomness from the operating system, for nonces, salts and
//! handshake challenges.

use vstd::prelude::*;

verus! {

/// Relies on `rand_core::OsRng::fill_bytes`: fills the buffer with bytes
/// from the operating system's entropy source. Nothing is promised of the
/// values; the contract states only the length, so every proof built on it
/// holds whatever bytes come back.
#[verifier::external_body]
pub fn random_bytes(n: usize) -> (r: Vec<u8>)
    ensures
        r@.len() == n,
{
    let mut buf = vec![0u8; n];
    rand_core::RngCore::fill_bytes(&mut rand_core::OsRng, &mut buf);
    buf
}

} // verus!
