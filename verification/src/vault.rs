//! The key vault: wrapping the 32-byte data key under a passphrase-derived
//! key, and unwrapping it again.
//!
//! A wrapped key blob is `salt(16) || nonce(12) || ciphertext_and_tag`,
//! at least 44 bytes in all. The wrap key is derived from the passphrase
//! and the stored salt by PBKDF2-HMAC-SHA-256 with 100,000 iterations and
//! is never stored; unwrapping re-derives it. A failed authentication does
//! not say whether the passphrase was wrong or the blob corrupted.

use vstd::prelude::*;
use vstd::utf8::encode_utf8;
use crate::aead::{aead_decrypt, aead_encrypt, gcm_open};
use crate::buf::{concat_bytes, copy_range};
use crate::errors::VaultError;
use crate::kdf::{derive_key_bytes, kdf_bytes};
use crate::rng::random_bytes;

verus! {

/// PBKDF2 iteration count used for every wrap and unwrap.
pub const KDF_ROUNDS: u32 = 100000;

/// Byte length of the random salt at the head of a blob.
pub const SALT_LEN: usize = 16;

/// Byte length of the nonce following the salt.
pub const NONCE_LEN: usize = 12;

/// Least length of a well-formed blob: salt, nonce and the tag of an
/// empty ciphertext.
pub const MIN_BLOB_LEN: usize = 44;

/// The salt stored at the head of a blob.
pub open spec fn blob_salt(blob: Seq<u8>) -> Seq<u8> {
    blob.subrange(0, SALT_LEN as int)
}

/// The nonce stored after the salt.
pub open spec fn blob_nonce(blob: Seq<u8>) -> Seq<u8> {
    blob.subrange(SALT_LEN as int, (SALT_LEN + NONCE_LEN) as int)
}

/// The ciphertext-and-tag that fills the rest of the blob.
pub open spec fn blob_sealed(blob: Seq<u8>) -> Seq<u8> {
    blob.subrange((SALT_LEN + NONCE_LEN) as int, blob.len() as int)
}

/// The wrap key that `passphrase_bytes` derives with the blob's salt.
pub open spec fn blob_wrap_key(blob: Seq<u8>, passphrase_bytes: Seq<u8>) -> Seq<u8> {
    kdf_bytes(passphrase_bytes, blob_salt(blob), KDF_ROUNDS, 32)
}

/// What it means for a blob to unwrap to `dek` under a passphrase: the
/// blob is long enough, and AES-256-GCM under the re-derived wrap key and
/// the stored nonce opens the stored ciphertext to exactly `dek`.
pub open spec fn blob_unwraps_to(blob: Seq<u8>, passphrase_bytes: Seq<u8>, dek: Seq<u8>) -> bool {
    &&& blob.len() >= MIN_BLOB_LEN
    &&& gcm_open(blob_wrap_key(blob, passphrase_bytes), blob_nonce(blob), blob_sealed(blob))
        == Some(dek)
}

/// Wrap the data key: draw a fresh random salt and nonce, derive the wrap
/// key from the passphrase, encrypt the key, and lay the blob out as
/// `salt || nonce || ciphertext_and_tag`. A data key is exactly 32 bytes;
/// anything else is a configuration error and is never wrapped. The blob
/// unwraps back to exactly this data key under the same passphrase.
pub fn wrap(dek: &[u8], passphrase: &str) -> (r: Vec<u8>)
    requires
        dek@.len() == 32,
    ensures
        r@.len() == 76,
        blob_unwraps_to(r@, encode_utf8(passphrase@), dek@),
{
    let salt = random_bytes(SALT_LEN);
    let nonce = random_bytes(NONCE_LEN);
    let wrap_key = derive_key_bytes(passphrase.as_bytes(), salt.as_slice(), KDF_ROUNDS, 32);
    let sealed = aead_encrypt(wrap_key.as_slice(), nonce.as_slice(), dek);
    let head = concat_bytes(salt.as_slice(), nonce.as_slice());
    let blob = concat_bytes(head.as_slice(), sealed.as_slice());
    proof {
        assert(blob_salt(blob@) =~= salt@);
        assert(blob_nonce(blob@) =~= nonce@);
        assert(blob_sealed(blob@) =~= sealed@);
    }
    blob
}

/// Unwrap a data key from a blob. The error says exactly what happened:
/// a blob under 44 bytes is malformed; a failed authentication means a
/// wrong passphrase or a corrupted blob, deliberately not distinguished;
/// a decryption that is not exactly 32 bytes is no key.
pub fn unwrap(blob: &[u8], passphrase: &str) -> (r: Result<Vec<u8>, VaultError>)
    ensures
        match r {
            Ok(k) => blob_unwraps_to(blob@, encode_utf8(passphrase@), k@) && k@.len() == 32,
            Err(VaultError::MalformedBlob) => blob@.len() < MIN_BLOB_LEN,
            Err(VaultError::WrongPassphraseOrCorrupted) => {
                &&& blob@.len() >= MIN_BLOB_LEN
                &&& gcm_open(
                    blob_wrap_key(blob@, encode_utf8(passphrase@)),
                    blob_nonce(blob@),
                    blob_sealed(blob@),
                ) is None
            },
            Err(VaultError::InvalidKeyLength) => {
                &&& blob@.len() >= MIN_BLOB_LEN
                &&& gcm_open(
                    blob_wrap_key(blob@, encode_utf8(passphrase@)),
                    blob_nonce(blob@),
                    blob_sealed(blob@),
                ) matches Some(p) && p.len() != 32
            },
        },
{
    if blob.len() < MIN_BLOB_LEN {
        return Err(VaultError::MalformedBlob);
    }
    let salt = copy_range(blob, 0, SALT_LEN);
    let nonce = copy_range(blob, SALT_LEN, SALT_LEN + NONCE_LEN);
    let sealed = copy_range(blob, SALT_LEN + NONCE_LEN, blob.len());
    let wrap_key = derive_key_bytes(passphrase.as_bytes(), salt.as_slice(), KDF_ROUNDS, 32);
    match aead_decrypt(wrap_key.as_slice(), nonce.as_slice(), sealed.as_slice()) {
        Some(dek) => {
            if dek.len() != 32 {
                Err(VaultError::InvalidKeyLength)
            } else {
                Ok(dek)
            }
        },
        None => Err(VaultError::WrongPassphraseOrCorrupted),
    }
}

/// A blob unwraps to at most one data key under a given passphrase.
pub proof fn lemma_blob_unwraps_uniquely(
    blob: Seq<u8>,
    passphrase_bytes: Seq<u8>,
    k1: Seq<u8>,
    k2: Seq<u8>,
)
    requires
        blob_unwraps_to(blob, passphrase_bytes, k1),
        blob_unwraps_to(blob, passphrase_bytes, k2),
    ensures
        k1 == k2,
{
}

/// Round trip of the vault: any result that satisfies `unwrap`'s contract,
/// applied to a blob that `wrap` produced for a 32-byte data key under the
/// same passphrase, is success with exactly that data key.
pub proof fn lemma_wrap_then_unwrap(
    blob: Seq<u8>,
    passphrase_bytes: Seq<u8>,
    dek: Seq<u8>,
    r: Result<Vec<u8>, VaultError>,
)
    requires
        dek.len() == 32,
        blob_unwraps_to(blob, passphrase_bytes, dek),
        match r {
            Ok(k) => blob_unwraps_to(blob, passphrase_bytes, k@) && k@.len() == 32,
            Err(VaultError::MalformedBlob) => blob.len() < MIN_BLOB_LEN,
            Err(VaultError::WrongPassphraseOrCorrupted) => gcm_open(
                blob_wrap_key(blob, passphrase_bytes),
                blob_nonce(blob),
                blob_sealed(blob),
            ) is None,
            Err(VaultError::InvalidKeyLength) => gcm_open(
                blob_wrap_key(blob, passphrase_bytes),
                blob_nonce(blob),
                blob_sealed(blob),
            ) matches Some(p) && p.len() != 32,
        },
    ensures
        r is Ok,
        r matches Ok(k) ==> k@ == dek,
{
}

} // verus!
