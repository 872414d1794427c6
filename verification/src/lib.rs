//! Core of a small encrypted group chat: a trusted set of participants share
//! one symmetric key, connect over TCP, and exchange authenticated-encrypted
//! messages that are fanned out to all other connected peers.
//!
//! This crate holds the protocol and security logic, each function with a
//! verified contract: key wrapping and unwrapping, authenticated-encryption
//! envelopes, length-prefixed framing, the connection handshake state
//! machine, and the connection registry with its broadcast target selection.
//! Socket, file and terminal I/O live outside the crate and hand plain
//! values in and out.

pub mod aead;
pub mod buf;
pub mod cipher;
pub mod errors;
pub mod frame;
pub mod handshake;
pub mod hexcode;
pub mod kdf;
pub mod registry;
pub mod rng;
pub mod session;
pub mod vault;
