//! Password-based key derivation for wrapping the data key.
//!
//! The derivation itself is PBKDF2 with HMAC-SHA-256, done by the `pbkdf2`
//! crate. Its output has no short description, but it is a function of the
//! password, salt, round count and output length alone, so the contracts
//! name it `kdf_bytes` and speak of that name exactly.

use vstd::prelude::*;

verus! {

/// The PBKDF2-HMAC-SHA-256 output for the given password, salt, round
/// count and output length.
pub uninterp spec fn kdf_bytes(password: Seq<u8>, salt: Seq<u8>, rounds: u32, out_len: usize) -> Seq<u8>;

/// Relies on `pbkdf2::pbkdf2_hmac` with SHA-256: fills the output buffer
/// with the PBKDF2 bytes for the given password, salt and round count, a
/// deterministic function of those arguments alone.
#[verifier::external_body]
pub fn derive_key_bytes(password: &[u8], salt: &[u8], rounds: u32, out_len: usize) -> (r: Vec<u8>)
    requires
        rounds >= 1,
    ensures
        r@.len() == out_len,
        r@ == kdf_bytes(password@, salt@, rounds, out_len),
{
    let mut out = vec![0u8; out_len];
    pbkdf2::pbkdf2_hmac::<sha2::Sha256>(password, salt, rounds, &mut out);
    out
}

} // verus!
