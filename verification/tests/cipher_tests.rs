use antimpeu::cipher::{open, seal};
use antimpeu::errors::CryptoError;
use antimpeu::hexcode::{hex_decode, hex_encode};

fn key() -> Vec<u8> {
    (0u8..32).collect()
}

#[test]
fn seal_open_round_trip_short() {
    let k = key();
    let env = seal(&k, b"hello world", "alice");
    assert_eq!(env.username, "alice");
    let back = open(&k, &env).expect("fresh envelope must open");
    assert_eq!(back, b"hello world".to_vec());
}

#[test]
fn seal_open_round_trip_empty() {
    let k = key();
    let env = seal(&k, b"", "bob");
    assert_eq!(env.ciphertext, "");
    assert_eq!(env.tag.len(), 32);
    assert_eq!(env.nonce.len(), 24);
    let back = open(&k, &env).expect("empty plaintext must round-trip");
    assert_eq!(back, Vec::<u8>::new());
}

#[test]
fn seal_open_round_trip_64k() {
    let k = key();
    let big: Vec<u8> = (0..65536u32).map(|i| (i % 251) as u8).collect();
    let env = seal(&k, &big, "carol");
    let back = open(&k, &env).expect("64 KiB plaintext must round-trip");
    assert_eq!(back, big);
}

#[test]
fn open_with_wrong_key_fails() {
    let k = key();
    let mut k2 = key();
    k2[0] ^= 1;
    let env = seal(&k, b"secret", "alice");
    assert_eq!(open(&k2, &env), Err(CryptoError::AuthenticationFailure));
}

#[test]
fn every_single_bit_flip_in_ciphertext_or_tag_fails() {
    let k = key();
    let plaintext = b"sixteen byte msg";
    let env = seal(&k, plaintext, "alice");
    let ct = hex_decode(&env.ciphertext).expect("own ciphertext is valid hex");
    let tag = hex_decode(&env.tag).expect("own tag is valid hex");
    for byte_idx in 0..ct.len() {
        for bit in 0..8 {
            let mut tampered = ct.clone();
            tampered[byte_idx] ^= 1u8 << bit;
            let mut env2 = env.clone();
            env2.ciphertext = hex_encode(&tampered);
            assert_eq!(
                open(&k, &env2),
                Err(CryptoError::AuthenticationFailure),
                "ciphertext bit flip went unnoticed"
            );
        }
    }
    for byte_idx in 0..tag.len() {
        for bit in 0..8 {
            let mut tampered = tag.clone();
            tampered[byte_idx] ^= 1u8 << bit;
            let mut env2 = env.clone();
            env2.tag = hex_encode(&tampered);
            assert_eq!(
                open(&k, &env2),
                Err(CryptoError::AuthenticationFailure),
                "tag bit flip went unnoticed"
            );
        }
    }
}

#[test]
fn ten_thousand_nonces_are_pairwise_distinct() {
    let k = key();
    let mut nonces: Vec<String> = (0..10_000).map(|_| seal(&k, b"x", "a").nonce).collect();
    nonces.sort();
    for w in nonces.windows(2) {
        assert_ne!(w[0], w[1], "a nonce repeated under the same key");
    }
}

#[test]
fn malformed_hex_fields_fail_to_open() {
    let k = key();
    let env = seal(&k, b"payload", "alice");

    let mut bad = env.clone();
    bad.nonce = "zz".repeat(12);
    assert_eq!(open(&k, &bad), Err(CryptoError::AuthenticationFailure));

    let mut bad = env.clone();
    bad.nonce = "ab".to_string(); // decodes, but not to 12 bytes
    assert_eq!(open(&k, &bad), Err(CryptoError::AuthenticationFailure));

    let mut bad = env.clone();
    bad.ciphertext = "abc".to_string(); // odd length
    assert_eq!(open(&k, &bad), Err(CryptoError::AuthenticationFailure));

    let mut bad = env.clone();
    bad.tag = "00".to_string(); // decodes, but not to 16 bytes
    assert_eq!(open(&k, &bad), Err(CryptoError::AuthenticationFailure));
}

#[test]
fn hex_wrappers_encode_and_decode() {
    assert_eq!(hex_encode(&[0x00, 0xff, 0x1a]), "00ff1a");
    assert_eq!(hex_decode("00ff1a"), Some(vec![0x00, 0xff, 0x1a]));
    assert_eq!(hex_decode("00FF1A"), Some(vec![0x00, 0xff, 0x1a]));
    assert_eq!(hex_decode(""), Some(Vec::new()));
    assert_eq!(hex_decode("0"), None);
    assert_eq!(hex_decode("0g"), None);
}

#[test]
fn sealed_hex_fields_are_lowercase() {
    let k = key();
    let env = seal(&k, b"some plaintext", "alice");
    for field in [&env.nonce, &env.ciphertext, &env.tag] {
        assert!(
            field.chars().all(|c| c.is_ascii_digit() || ('a'..='f').contains(&c)),
            "envelope hex fields must be lowercase hex"
        );
    }
}

#[test]
fn sealed_ciphertext_is_not_the_plaintext() {
    let k = key();
    let env = seal(&k, b"attack at dawn", "alice");
    assert_ne!(env.ciphertext, hex_encode(b"attack at dawn"));
}
