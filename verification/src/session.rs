//! One connection's lifecycle, from the TCP accept to its removal from
//! the registry, and the system notices the server broadcasts about it.
//!
//! In the active phase a dedicated reader handles one decoded message at
//! a time, in arrival order: a successfully opened envelope is delivered
//! locally and relayed to every other peer; any read, decode or
//! authentication failure closes the session, deregisters the peer and
//! announces the disconnection to the remaining peers. Per-connection
//! errors never reach other sessions.

use vstd::prelude::*;
use vstd::string::StringExecFns;
use crate::errors::RejectReason;
use crate::handshake::ServerHandshake;

verus! {

/// Why a session ended.
#[derive(Debug, Clone, Copy, PartialEq, Eq, Structural)]
pub enum CloseReason {
    /// The handshake rejected the connection before it was registered.
    HandshakeFailed { reason: RejectReason },
    /// The steady-state read loop hit end-of-stream, a decode failure or
    /// an authentication failure.
    StreamEnded,
}

/// The phases of one connection's life.
#[derive(Debug, Clone, Copy, PartialEq, Eq, Structural)]
pub enum SessionState {
    /// The TCP connection exists; nothing has been exchanged.
    Connecting,
    /// The handshake is running; the peer is not yet trusted.
    Handshaking,
    /// Established and registered: chat traffic flows.
    Active,
    /// Over: deregistered (if it ever was registered) and closed.
    Closed { reason: CloseReason },
}

/// What the caller must do after one step of the active read loop.
pub enum SessionDirective {
    /// Deliver the message locally and relay it to every registered peer
    /// except its originator.
    Relay { sender: String, text: String },
    /// Remove the peer from the registry and send a disconnection notice
    /// to every remaining peer.
    Disconnect,
}

/// A new connection starts handshaking before anything else.
pub fn session_on_connect(st: SessionState) -> (r: SessionState)
    requires
        st is Connecting,
    ensures
        r is Handshaking,
{
    SessionState::Handshaking
}

/// The handshake outcome decides the session: established connections
/// become active (and only those are ever registered); rejected ones are
/// closed with the handshake's reason, never having been registered.
pub fn session_on_handshake(st: SessionState, hs: &ServerHandshake) -> (r: SessionState)
    requires
        st is Handshaking,
        hs is Established || hs matches ServerHandshake::Rejected { reason },
    ensures
        hs is Established ==> r is Active,
        hs matches ServerHandshake::Rejected { reason: hr } ==> r == (SessionState::Closed {
            reason: CloseReason::HandshakeFailed { reason: *hr },
        }),
{
    match hs {
        ServerHandshake::Established => SessionState::Active,
        ServerHandshake::Rejected { reason } => SessionState::Closed {
            reason: CloseReason::HandshakeFailed { reason: *reason },
        },
        _ => vstd::pervasive::unreached(),
    }
}

/// One step of the active read loop: a decoded message keeps the session
/// active and is relayed with its sender name and text unchanged; a
/// failed read closes the session and directs the caller to deregister
/// and announce the disconnection.
pub fn session_on_read(st: SessionState, message: Option<(String, String)>) -> (r: (
    SessionState,
    SessionDirective,
))
    requires
        st is Active,
    ensures
        message matches Some((sender, text)) ==> (r.0 is Active && (r.1
            matches SessionDirective::Relay { sender: s2, text: t2 } && s2@ == sender@ && t2@
            == text@)),
        message is None ==> (r.0 == (SessionState::Closed { reason: CloseReason::StreamEnded })
            && r.1 is Disconnect),
{
    match message {
        Some((sender, text)) => (SessionState::Active, SessionDirective::Relay { sender, text }),
        None => (
            SessionState::Closed { reason: CloseReason::StreamEnded },
            SessionDirective::Disconnect,
        ),
    }
}

/// The system notice announcing a fresh TCP connection.
pub fn connect_notice(peer: &str) -> (r: String)
    ensures
        r@ == "New connection from "@ + peer@,
{
    let mut s = String::from_str("New connection from ");
    s.append(peer);
    s
}

/// The system notice announcing that a peer's session ended.
pub fn disconnect_notice(peer: &str) -> (r: String)
    ensures
        r@ == "Disconnected from "@ + peer@,
{
    let mut s = String::from_str("Disconnected from ");
    s.append(peer);
    s
}

/// The system notice announcing a rejected connection attempt, worded by
/// the handshake's reason.
pub fn refusal_notice(peer: &str, reason: RejectReason) -> (r: String)
    ensures
        reason == RejectReason::NoHello ==> r@ == "Refused connection from "@ + peer@ + "."@,
        reason == RejectReason::WriteFailed ==> r@ == "Refused connection from "@ + peer@
            + " (handshake write failed)"@,
        reason == RejectReason::NoReply ==> r@ == "Refused connection from "@ + peer@
            + " (no handshake reply)"@,
        reason == RejectReason::ChallengeMismatch ==> r@ == "Refused connection from "@ + peer@
            + " (handshake mismatch)"@,
{
    let mut s = String::from_str("Refused connection from ");
    s.append(peer);
    match reason {
        RejectReason::NoHello => s.append("."),
        RejectReason::WriteFailed => s.append(" (handshake write failed)"),
        RejectReason::NoReply => s.append(" (no handshake reply)"),
        RejectReason::ChallengeMismatch => s.append(" (handshake mismatch)"),
    }
    s
}

} // verus!
