//! Error taxonomy of the protocol core.
//!
//! Decryption failures deliberately do not say why they failed: a wrong key
//! and a corrupted message are indistinguishable to the caller, so that no
//! decryption oracle is exposed.

use vstd::prelude::*;

verus! {

/// Failure of authenticated decryption of a chat envelope. Tag mismatch,
/// malformed hex and wrong field lengths all map to this one variant.
#[derive(Debug, Clone, Copy, PartialEq, Eq, Structural)]
pub enum CryptoError {
    AuthenticationFailure,
}

/// Failure of unwrapping the data key from a wrapped key blob.
#[derive(Debug, Clone, Copy, PartialEq, Eq, Structural)]
pub enum VaultError {
    /// The blob is shorter than the fixed salt, nonce and tag overhead.
    MalformedBlob,
    /// Authentication failed: wrong passphrase or corrupted blob; the two
    /// causes are not distinguished by design.
    WrongPassphraseOrCorrupted,
    /// The blob decrypted, but not to a key of exactly 32 bytes.
    InvalidKeyLength,
}

/// Failure of encoding or decoding a length-prefixed frame.
#[derive(Debug, Clone, Copy, PartialEq, Eq, Structural)]
pub enum FrameError {
    /// The payload length exceeds the enforced maximum frame size.
    FrameTooLarge,
}

/// Why a connection attempt was rejected by the server-side handshake.
#[derive(Debug, Clone, Copy, PartialEq, Eq, Structural)]
pub enum RejectReason {
    /// The first frame was missing, late, or not the expected hello token.
    NoHello,
    /// Writing the challenge frame to the peer failed.
    WriteFailed,
    /// No decryptable reply to the challenge arrived in time.
    NoReply,
    /// The reply decrypted, but its plaintext was not the challenge.
    ChallengeMismatch,
}

} // verus!
