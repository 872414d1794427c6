//! Authenticated encryption of single messages with AES-256-GCM (256-bit
//! key, 96-bit nonce, 128-bit tag), done by the `aes-gcm` crate.
//!
//! The cipher's output has no short description, but it is a deterministic
//! function of key, nonce and plaintext; the contracts name the sealed
//! bytes `gcm_seal` and the decryption function `gcm_open`, and state the
//! facts the crate's source shows: sealing appends a 16-byte tag, opening
//! what was sealed gives the plaintext back, and opening fails exactly
//! where `gcm_open` has no value.

use vstd::prelude::*;

verus! {

/// The AES-256-GCM sealing of `plaintext` under `key` and `nonce`: the
/// ciphertext with the 16-byte authentication tag appended.
pub uninterp spec fn gcm_seal(key: Seq<u8>, nonce: Seq<u8>, plaintext: Seq<u8>) -> Seq<u8>;

/// The AES-256-GCM opening of `sealed` under `key` and `nonce`: the
/// plaintext where the authentication tag verifies, nothing otherwise.
pub uninterp spec fn gcm_open(key: Seq<u8>, nonce: Seq<u8>, sealed: Seq<u8>) -> Option<Seq<u8>>;

/// Relies on `aes_gcm::Aes256Gcm` via the `Aead::encrypt` method: returns
/// the ciphertext with the 16-byte tag appended, a deterministic function
/// of key, nonce and plaintext, and decrypting that output under the same
/// key and nonce verifies and returns the plaintext.
#[verifier::external_body]
pub fn aead_encrypt(key: &[u8], nonce: &[u8], plaintext: &[u8]) -> (r: Vec<u8>)
    requires
        key@.len() == 32,
        nonce@.len() == 12,
        plaintext@.len() <= 0xffff_ffff,
    ensures
        r@ == gcm_seal(key@, nonce@, plaintext@),
        r@.len() == plaintext@.len() + 16,
        gcm_open(key@, nonce@, r@) == Some(plaintext@),
{
    let cipher = <aes_gcm::Aes256Gcm as aes_gcm::KeyInit>::new_from_slice(key).expect(
        "key length checked",
    );
    let nonce_ga = aes_gcm::aead::generic_array::GenericArray::<u8, typenum::U12>::from_slice(
        nonce,
    );
    aes_gcm::aead::Aead::encrypt(&cipher, nonce_ga, plaintext).expect("plaintext length checked")
}

/// Relies on `aes_gcm::Aes256Gcm` via the `Aead::decrypt` method: returns
/// the plaintext exactly where the authentication tag verifies for these
/// key, nonce and sealed bytes, and fails otherwise.
#[verifier::external_body]
pub fn aead_decrypt(key: &[u8], nonce: &[u8], sealed: &[u8]) -> (r: Option<Vec<u8>>)
    requires
        key@.len() == 32,
        nonce@.len() == 12,
    ensures
        match r {
            Some(p) => gcm_open(key@, nonce@, sealed@) == Some(p@) && p@.len() + 16 == sealed@.len(),
            None => gcm_open(key@, nonce@, sealed@) is None,
        },
{
    let cipher = <aes_gcm::Aes256Gcm as aes_gcm::KeyInit>::new_from_slice(key).expect(
        "key length checked",
    );
    let nonce_ga = aes_gcm::aead::generic_array::GenericArray::<u8, typenum::U12>::from_slice(
        nonce,
    );
    aes_gcm::aead::Aead::decrypt(&cipher, nonce_ga, sealed).ok()
}

} // verus!
