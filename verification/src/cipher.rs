//! The cipher engine: sealing a chat message into an envelope and opening
//! an envelope back into its plaintext.
//!
//! An envelope carries the sender's self-declared name and the nonce,
//! ciphertext and tag of one AES-256-GCM encryption, each as a hex string.
//! Every seal draws a fresh random 12-byte nonce, so decryption is
//! self-contained. Opening fails with one indistinguishable error for tag
//! mismatch, malformed hex and wrong field lengths alike, so the caller
//! cannot tell a wrong key from a corrupted message.

use vstd::prelude::*;
use crate::aead::{aead_decrypt, aead_encrypt, gcm_open};
use crate::buf::{concat_bytes, copy_range};
use crate::errors::CryptoError;
use crate::hexcode::{
    canonical_hex, hex_decode, hex_decoded, hex_encode, lemma_hex_of_canonical,
    lemma_hex_round_trip, str_bytes, valid_hex,
};
use crate::rng::random_bytes;

verus! {

/// One encrypted chat message as it travels inside a frame: the sender's
/// name in the clear, and the nonce, ciphertext and authentication tag of
/// the encryption, hex-encoded.
#[derive(Debug, Clone)]
pub struct EncryptedMessage {
    pub username: String,
    pub nonce: String,
    pub ciphertext: String,
    pub tag: String,
}

/// What it means for an envelope to open to `plaintext` under `key`: the
/// hex fields are well-formed, the nonce and tag have their fixed sizes,
/// and AES-256-GCM opens the decoded ciphertext-and-tag to exactly
/// `plaintext`.
pub open spec fn env_opens_to(key: Seq<u8>, env: EncryptedMessage, plaintext: Seq<u8>) -> bool {
    &&& valid_hex(str_bytes(env.nonce@))
    &&& str_bytes(env.nonce@).len() == 24
    &&& valid_hex(str_bytes(env.ciphertext@))
    &&& valid_hex(str_bytes(env.tag@))
    &&& str_bytes(env.tag@).len() == 32
    &&& gcm_open(
        key,
        hex_decoded(str_bytes(env.nonce@)),
        hex_decoded(str_bytes(env.ciphertext@)) + hex_decoded(str_bytes(env.tag@)),
    ) == Some(plaintext)
}

/// Seal one message: draw a fresh random 12-byte nonce, encrypt the
/// plaintext under `key`, split off the 16-byte tag, and hex-encode the
/// parts in canonical lower case. The envelope opens back to exactly this
/// plaintext under `key`.
#[verifier::rlimit(50)]
pub fn seal(key: &[u8], plaintext: &[u8], sender: &str) -> (r: EncryptedMessage)
    requires
        key@.len() == 32,
        plaintext@.len() <= 0xffff_ffff,
    ensures
        r.username@ == sender@,
        env_opens_to(key@, r, plaintext@),
        str_bytes(r.ciphertext@).len() == plaintext@.len() * 2,
        canonical_hex(str_bytes(r.nonce@)),
        canonical_hex(str_bytes(r.ciphertext@)),
        canonical_hex(str_bytes(r.tag@)),
{
    let nonce = random_bytes(12);
    let sealed = aead_encrypt(key, nonce.as_slice(), plaintext);
    let split = sealed.len() - 16;
    let ct = copy_range(sealed.as_slice(), 0, split);
    let tag = copy_range(sealed.as_slice(), split, sealed.len());
    let r = EncryptedMessage {
        username: sender.to_owned(),
        nonce: hex_encode(nonce.as_slice()),
        ciphertext: hex_encode(ct.as_slice()),
        tag: hex_encode(tag.as_slice()),
    };
    proof {
        lemma_hex_of_canonical(nonce@);
        lemma_hex_of_canonical(ct@);
        lemma_hex_of_canonical(tag@);
        lemma_hex_round_trip(nonce@);
        lemma_hex_round_trip(ct@);
        lemma_hex_round_trip(tag@);
        assert(ct@ + tag@ =~= sealed@);
    }
    r
}

/// Open one envelope under `key`. Success returns the unique plaintext the
/// envelope opens to; any failure — malformed hex, wrong nonce or tag
/// size, or an authentication-tag mismatch — is the same error, and then
/// the envelope opens to no plaintext at all under `key`.
pub fn open(key: &[u8], env: &EncryptedMessage) -> (r: Result<Vec<u8>, CryptoError>)
    requires
        key@.len() == 32,
    ensures
        match r {
            Ok(p) => env_opens_to(key@, *env, p@),
            Err(e) => {
                &&& e == CryptoError::AuthenticationFailure
                &&& forall|p: Seq<u8>| !env_opens_to(key@, *env, p)
            },
        },
{
    let nonce_b = match hex_decode(env.nonce.as_str()) {
        Some(b) => b,
        None => { return Err(CryptoError::AuthenticationFailure) },
    };
    if nonce_b.len() != 12 {
        return Err(CryptoError::AuthenticationFailure);
    }
    let ct_b = match hex_decode(env.ciphertext.as_str()) {
        Some(b) => b,
        None => { return Err(CryptoError::AuthenticationFailure) },
    };
    let tag_b = match hex_decode(env.tag.as_str()) {
        Some(b) => b,
        None => { return Err(CryptoError::AuthenticationFailure) },
    };
    if tag_b.len() != 16 {
        return Err(CryptoError::AuthenticationFailure);
    }
    let sealed = concat_bytes(ct_b.as_slice(), tag_b.as_slice());
    match aead_decrypt(key, nonce_b.as_slice(), sealed.as_slice()) {
        Some(p) => Ok(p),
        None => Err(CryptoError::AuthenticationFailure),
    }
}

/// An envelope opens to at most one plaintext under a given key: opening
/// is a function, so sealing and then opening cannot drift.
pub proof fn lemma_env_opens_uniquely(
    key: Seq<u8>,
    env: EncryptedMessage,
    p1: Seq<u8>,
    p2: Seq<u8>,
)
    requires
        env_opens_to(key, env, p1),
        env_opens_to(key, env, p2),
    ensures
        p1 == p2,
{
}

/// Round trip of the cipher engine: any result that satisfies `open`'s
/// contract, applied to an envelope that `seal` produced for `plaintext`
/// under the same key, is success with exactly `plaintext`.
pub proof fn lemma_seal_then_open(
    key: Seq<u8>,
    env: EncryptedMessage,
    plaintext: Seq<u8>,
    r: Result<Vec<u8>, CryptoError>,
)
    requires
        env_opens_to(key, env, plaintext),
        r matches Ok(p) ==> env_opens_to(key, env, p@),
        r matches Err(e) ==> forall|q: Seq<u8>| !env_opens_to(key, env, q),
    ensures
        r is Ok,
        r matches Ok(p) ==> p@ == plaintext,
{
    if r is Err {
        assert(!env_opens_to(key, env, plaintext));
    }
}

} // verus!
