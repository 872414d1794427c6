use antimpeu::aead::aead_encrypt;
use antimpeu::errors::VaultError;
use antimpeu::kdf::derive_key_bytes;
use antimpeu::vault::{unwrap, wrap, KDF_ROUNDS};

fn dek() -> Vec<u8> {
    (100u8..132).collect()
}

#[test]
fn wrap_unwrap_round_trip() {
    let blob = wrap(&dek(), "correct horse battery staple");
    assert_eq!(blob.len(), 32 + 44);
    let back = unwrap(&blob, "correct horse battery staple").expect("own blob must unwrap");
    assert_eq!(back, dek());
}

#[test]
fn wrap_unwrap_round_trip_empty_passphrase() {
    let blob = wrap(&dek(), "");
    let back = unwrap(&blob, "").expect("empty passphrase is a passphrase too");
    assert_eq!(back, dek());
}

#[test]
fn wrap_unwrap_round_trip_unicode_passphrase() {
    let blob = wrap(&dek(), "pass—phrase £ ✓");
    let back = unwrap(&blob, "pass—phrase £ ✓").expect("unicode passphrase must round-trip");
    assert_eq!(back, dek());
}

#[test]
fn wrong_passphrase_is_refused() {
    let blob = wrap(&dek(), "right");
    assert_eq!(
        unwrap(&blob, "wrong"),
        Err(VaultError::WrongPassphraseOrCorrupted)
    );
}

#[test]
fn truncated_blob_is_malformed() {
    let blob = wrap(&dek(), "pass");
    assert_eq!(unwrap(&blob[..43], "pass"), Err(VaultError::MalformedBlob));
    assert_eq!(unwrap(&[], "pass"), Err(VaultError::MalformedBlob));
}

#[test]
fn corrupted_blob_is_refused() {
    let mut blob = wrap(&dek(), "pass");
    let last = blob.len() - 1;
    blob[last] ^= 1;
    assert_eq!(
        unwrap(&blob, "pass"),
        Err(VaultError::WrongPassphraseOrCorrupted)
    );
}

#[test]
fn decrypted_key_of_wrong_length_is_refused() {
    // a blob in the right layout whose plaintext is 31 bytes, not a key;
    // built by hand, since wrap only accepts 32-byte keys
    let not_a_key: Vec<u8> = (0u8..31).collect();
    let salt = [7u8; 16];
    let nonce = [9u8; 12];
    let wrap_key = derive_key_bytes(b"pass", &salt, KDF_ROUNDS, 32);
    let sealed = aead_encrypt(&wrap_key, &nonce, &not_a_key);
    let mut blob = Vec::new();
    blob.extend_from_slice(&salt);
    blob.extend_from_slice(&nonce);
    blob.extend_from_slice(&sealed);
    assert_eq!(unwrap(&blob, "pass"), Err(VaultError::InvalidKeyLength));
}

#[test]
fn key_derivation_is_deterministic_and_salt_sensitive() {
    let a = derive_key_bytes(b"pw", b"0123456789abcdef", 1000, 32);
    let b = derive_key_bytes(b"pw", b"0123456789abcdef", 1000, 32);
    let c = derive_key_bytes(b"pw", b"0123456789abcdeX", 1000, 32);
    let d = derive_key_bytes(b"pW", b"0123456789abcdef", 1000, 32);
    assert_eq!(a.len(), 32);
    assert_eq!(a, b);
    assert_ne!(a, c);
    assert_ne!(a, d);
}
