//! The connection handshake: proof of possession of the shared key before
//! any chat traffic is trusted.
//!
//! Server side: the first frame must be the exact plaintext hello token,
//! read under a short deadline; then the server sends a plaintext
//! challenge frame `CHAL:` followed by 24 hex digits of a fresh random
//! 12-byte value; the client must reply, within its own deadline, with an
//! envelope whose plaintext is exactly that challenge. Anything else ends
//! in a terminal `Rejected` state and the connection never reaches the
//! registry.
//!
//! This defends against stray or non-participant TCP clients, not against
//! one key holder impersonating another: identity stays self-asserted by
//! design, and this module does not try to fix that.

use vstd::prelude::*;
use crate::buf::{bytes_eq, concat_bytes, copy_range};
use crate::errors::RejectReason;
use crate::hexcode::{canonical_hex, hex_encode, lemma_hex_of_canonical};
use crate::rng::random_bytes;

verus! {

/// The bytes of the plaintext hello token, the ASCII string
/// `HELLO-ANTIMPEU`.
pub open spec fn hello_token() -> Seq<u8> {
    seq![
        0x48u8, 0x45u8, 0x4cu8, 0x4cu8, 0x4fu8, 0x2du8, 0x41u8, 0x4eu8, 0x54u8, 0x49u8, 0x4du8,
        0x50u8, 0x45u8, 0x55u8,
    ]
}

/// The bytes of the challenge frame prefix, the ASCII string `CHAL:`.
pub open spec fn chal_prefix() -> Seq<u8> {
    seq![0x43u8, 0x48u8, 0x41u8, 0x4cu8, 0x3au8]
}

/// A well-formed challenge: the 24 lower-case hex digits of 12 random
/// bytes.
pub open spec fn challenge_wf(c: Seq<u8>) -> bool {
    c.len() == 24 && canonical_hex(c)
}

/// Did a hello frame carry exactly the hello token? A missing frame — a
/// timeout or a read failure — never qualifies.
pub open spec fn is_hello_payload(payload: Option<Seq<u8>>) -> bool {
    payload matches Some(p) && p == hello_token()
}

/// Server-side handshake states. `Rejected` is terminal: no event leads
/// out of it, so a rejected connection can never become established.
#[derive(Debug)]
pub enum ServerHandshake {
    /// Waiting for the first frame of a fresh connection.
    AwaitHello,
    /// Hello accepted; the challenge was issued and its echo is awaited.
    AwaitResponse { challenge: Vec<u8> },
    /// The peer proved possession of the shared key.
    Established,
    /// The connection was refused; it must be closed and never registered.
    Rejected { reason: RejectReason },
}

/// One observable event of the server-side handshake, at spec level.
pub enum ServerEvent {
    /// The first frame, or nothing on a timeout or read failure.
    Hello { payload: Option<Seq<u8>> },
    /// Whether writing the challenge frame to the peer succeeded.
    ChallengeWritten { ok: bool },
    /// The decrypted challenge reply, or nothing when no decryptable
    /// reply arrived in time.
    Reply { plaintext: Option<Seq<u8>> },
}

/// Two states are alike: same variant, and field values equal.
pub open spec fn state_eq(a: ServerHandshake, b: ServerHandshake) -> bool {
    match (a, b) {
        (ServerHandshake::AwaitHello, ServerHandshake::AwaitHello) => true,
        (
            ServerHandshake::AwaitResponse { challenge: c1 },
            ServerHandshake::AwaitResponse { challenge: c2 },
        ) => c1@ == c2@,
        (ServerHandshake::Established, ServerHandshake::Established) => true,
        (ServerHandshake::Rejected { reason: r1 }, ServerHandshake::Rejected { reason: r2 }) => r1
            == r2,
        _ => false,
    }
}

/// The transition relation of the server-side handshake. The challenge in
/// the step out of `AwaitHello` is random, so the relation fixes only its
/// shape; everything else is deterministic. An event that a state does not
/// expect leaves the state unchanged.
pub open spec fn server_step(st: ServerHandshake, ev: ServerEvent, next: ServerHandshake) -> bool {
    match st {
        ServerHandshake::AwaitHello => match ev {
            ServerEvent::Hello { payload } => {
                if is_hello_payload(payload) {
                    next matches ServerHandshake::AwaitResponse { challenge }
                        && challenge_wf(challenge@)
                } else {
                    next matches ServerHandshake::Rejected { reason: RejectReason::NoHello }
                }
            },
            _ => state_eq(next, st),
        },
        ServerHandshake::AwaitResponse { challenge } => match ev {
            ServerEvent::ChallengeWritten { ok } => {
                if ok {
                    state_eq(next, st)
                } else {
                    next matches ServerHandshake::Rejected { reason: RejectReason::WriteFailed }
                }
            },
            ServerEvent::Reply { plaintext } => match plaintext {
                Some(p) => {
                    if p == challenge@ {
                        next is Established
                    } else {
                        next matches ServerHandshake::Rejected {
                            reason: RejectReason::ChallengeMismatch,
                        }
                    }
                },
                None => next matches ServerHandshake::Rejected { reason: RejectReason::NoReply },
            },
            _ => state_eq(next, st),
        },
        ServerHandshake::Established => state_eq(next, st),
        ServerHandshake::Rejected { reason } => state_eq(next, st),
    }
}

/// The states a fresh connection can be in after a sequence of events,
/// starting from `AwaitHello`.
pub open spec fn server_reaches(evs: Seq<ServerEvent>, st: ServerHandshake) -> bool
    decreases evs.len(),
{
    if evs.len() == 0 {
        state_eq(st, ServerHandshake::AwaitHello)
    } else {
        exists|mid: ServerHandshake|
            server_reaches(evs.drop_last(), mid) && #[trigger] server_step(mid, evs.last(), st)
    }
}

/// The exec view of an optional received byte payload.
pub open spec fn opt_bytes(payload: Option<Vec<u8>>) -> Option<Seq<u8>> {
    match payload {
        Some(p) => Some(p@),
        None => None,
    }
}

/// The hello token as a byte vector, for the client to send and the
/// server to compare against.
pub fn hello_token_bytes() -> (r: Vec<u8>)
    ensures
        r@ == hello_token(),
{
    let mut v: Vec<u8> = Vec::new();
    v.push(0x48u8);
    v.push(0x45u8);
    v.push(0x4cu8);
    v.push(0x4cu8);
    v.push(0x4fu8);
    v.push(0x2du8);
    v.push(0x41u8);
    v.push(0x4eu8);
    v.push(0x54u8);
    v.push(0x49u8);
    v.push(0x4du8);
    v.push(0x50u8);
    v.push(0x45u8);
    v.push(0x55u8);
    assert(v@ =~= hello_token());
    v
}

/// The challenge frame prefix as a byte vector.
pub fn chal_prefix_bytes() -> (r: Vec<u8>)
    ensures
        r@ == chal_prefix(),
{
    let mut v: Vec<u8> = Vec::new();
    v.push(0x43u8);
    v.push(0x48u8);
    v.push(0x41u8);
    v.push(0x4cu8);
    v.push(0x3au8);
    assert(v@ =~= chal_prefix());
    v
}

/// Server step on the first frame of a connection. The exact hello token
/// yields a fresh random challenge and the `CHAL:`-prefixed plaintext
/// frame to send; anything else — including a timeout, passed as `None` —
/// is rejected with no frame to send.
pub fn server_on_hello(st: ServerHandshake, payload: Option<Vec<u8>>) -> (r: (
    ServerHandshake,
    Option<Vec<u8>>,
))
    requires
        st is AwaitHello,
    ensures
        server_step(st, ServerEvent::Hello { payload: opt_bytes(payload) }, r.0),
        is_hello_payload(opt_bytes(payload)) ==> (r.0 matches ServerHandshake::AwaitResponse {
            challenge,
        } && r.1 matches Some(f) && f@ == chal_prefix() + challenge@ && challenge_wf(challenge@)),
        !is_hello_payload(opt_bytes(payload)) ==> (r.0 matches ServerHandshake::Rejected {
            reason: RejectReason::NoHello,
        } && r.1 is None),
{
    let hello_ok = match &payload {
        Some(p) => {
            let tok = hello_token_bytes();
            bytes_eq(p.as_slice(), tok.as_slice())
        },
        None => false,
    };
    if hello_ok {
        let rand12 = random_bytes(12);
        let chal_str = hex_encode(rand12.as_slice());
        let challenge = chal_str.as_str().as_bytes_vec();
        proof {
            lemma_hex_of_canonical(rand12@);
        }
        let prefix = chal_prefix_bytes();
        let frame_payload = concat_bytes(prefix.as_slice(), challenge.as_slice());
        (ServerHandshake::AwaitResponse { challenge }, Some(frame_payload))
    } else {
        (ServerHandshake::Rejected { reason: RejectReason::NoHello }, None)
    }
}

/// Server step on the result of writing the challenge frame: a failed
/// write rejects the connection, a successful one leaves it waiting for
/// the echo.
pub fn server_on_write_result(st: ServerHandshake, ok: bool) -> (r: ServerHandshake)
    requires
        st is AwaitResponse,
    ensures
        server_step(st, ServerEvent::ChallengeWritten { ok }, r),
        ok ==> state_eq(r, st),
        !ok ==> r matches ServerHandshake::Rejected { reason: RejectReason::WriteFailed },
{
    if ok {
        st
    } else {
        ServerHandshake::Rejected { reason: RejectReason::WriteFailed }
    }
}

/// Server step on the challenge reply: established exactly when the
/// decrypted plaintext is the challenge byte for byte; a decryptable but
/// different reply is a mismatch; no decryptable reply is no reply.
pub fn server_on_reply(st: ServerHandshake, plaintext: Option<Vec<u8>>) -> (r: ServerHandshake)
    requires
        st is AwaitResponse,
    ensures
        server_step(st, ServerEvent::Reply { plaintext: opt_bytes(plaintext) }, r),
        r is Established <==> (st matches ServerHandshake::AwaitResponse { challenge }
            && opt_bytes(plaintext) == Some(challenge@)),
{
    match st {
        ServerHandshake::AwaitResponse { challenge } => match plaintext {
            Some(p) => {
                if bytes_eq(p.as_slice(), challenge.as_slice()) {
                    ServerHandshake::Established
                } else {
                    ServerHandshake::Rejected { reason: RejectReason::ChallengeMismatch }
                }
            },
            None => ServerHandshake::Rejected { reason: RejectReason::NoReply },
        },
        _ => vstd::pervasive::unreached(),
    }
}

/// The client's first frame: the hello token itself, sent as soon as the
/// connection opens.
pub fn client_hello() -> (r: Vec<u8>)
    ensures
        r@ == hello_token(),
{
    hello_token_bytes()
}

/// Client-side parsing of the challenge frame: a payload that starts with
/// the `CHAL:` prefix yields the challenge bytes after it; anything else
/// is refused.
pub fn parse_challenge(payload: &[u8]) -> (r: Option<Vec<u8>>)
    ensures
        match r {
            Some(c) => payload@.len() >= 5 && payload@.subrange(0, 5) == chal_prefix() && c@
                == payload@.subrange(5, payload@.len() as int),
            None => !(payload@.len() >= 5 && payload@.subrange(0, 5) == chal_prefix()),
        },
{
    if payload.len() < 5 {
        return None;
    }
    let head = copy_range(payload, 0, 5);
    let prefix = chal_prefix_bytes();
    if !bytes_eq(head.as_slice(), prefix.as_slice()) {
        return None;
    }
    Some(copy_range(payload, 5, payload.len()))
}

/// A rejected connection stays rejected: no later event leads anywhere
/// else.
pub proof fn lemma_rejected_is_terminal(st: ServerHandshake, ev: ServerEvent, next: ServerHandshake)
    requires
        st matches ServerHandshake::Rejected { reason },
        server_step(st, ev, next),
    ensures
        st matches ServerHandshake::Rejected { reason } ==> next
            matches ServerHandshake::Rejected { reason: r2 } && r2 == reason,
{
}

/// A connection whose first frame is not the hello token is rejected at
/// once and stays rejected through every later event, so it can never be
/// established — and so never registered.
pub proof fn lemma_wrong_hello_never_established(evs: Seq<ServerEvent>, st: ServerHandshake)
    requires
        evs.len() >= 1,
        evs[0] matches ServerEvent::Hello { payload } && !is_hello_payload(payload),
        server_reaches(evs, st),
    ensures
        st matches ServerHandshake::Rejected { reason },
        !(st is Established),
    decreases evs.len(),
{
    assert(evs.len() != 0);
    assert(server_reaches(evs, st) == (exists|mid: ServerHandshake|
        server_reaches(evs.drop_last(), mid) && #[trigger] server_step(mid, evs.last(), st)));
    let mid = choose|mid: ServerHandshake|
        server_reaches(evs.drop_last(), mid) && #[trigger] server_step(mid, evs.last(), st);
    assert(server_reaches(evs.drop_last(), mid) && server_step(mid, evs.last(), st));
    if evs.len() == 1 {
        assert(state_eq(mid, ServerHandshake::AwaitHello));
        assert(evs.last() == evs[0]);
    } else {
        assert(evs.drop_last()[0] == evs[0]);
        lemma_wrong_hello_never_established(evs.drop_last(), mid);
    }
}

/// A state awaiting the challenge echo always awaits a well-formed
/// challenge: 24 hex digits, as issued.
pub proof fn lemma_await_response_wf(evs: Seq<ServerEvent>, st: ServerHandshake)
    requires
        server_reaches(evs, st),
        st matches ServerHandshake::AwaitResponse { challenge },
    ensures
        st matches ServerHandshake::AwaitResponse { challenge } ==> challenge_wf(challenge@),
    decreases evs.len(),
{
    assert(evs.len() != 0);
    let mid = choose|mid: ServerHandshake|
        server_reaches(evs.drop_last(), mid) && #[trigger] server_step(mid, evs.last(), st);
    match mid {
        ServerHandshake::AwaitResponse { .. } => {
            lemma_await_response_wf(evs.drop_last(), mid);
        },
        _ => {},
    }
}

/// A connection is established only by the protocol: any event sequence
/// that reaches `Established` (or is still awaiting the echo) contained
/// the exact hello token, and any that reaches `Established` also
/// contained a decrypted echo of a well-formed challenge. Nothing else —
/// no timeout, no stray frame — gets a connection in.
pub proof fn lemma_established_provenance(evs: Seq<ServerEvent>, st: ServerHandshake)
    requires
        server_reaches(evs, st),
        st is Established || st matches ServerHandshake::AwaitResponse { challenge },
    ensures
        exists|i: int|
            0 <= i < evs.len() && evs[i] == (ServerEvent::Hello {
                payload: Some(hello_token()),
            }),
        st is Established ==> exists|i: int, c: Seq<u8>|
            0 <= i < evs.len() && evs[i] == (ServerEvent::Reply { plaintext: Some(c) })
                && challenge_wf(c),
    decreases evs.len(),
{
    assert(evs.len() != 0);
    let prev = evs.drop_last();
    let mid = choose|mid: ServerHandshake|
        server_reaches(prev, mid) && #[trigger] server_step(mid, evs.last(), st);
    match mid {
        ServerHandshake::AwaitHello => {
            // only a Hello with the exact token leads on from here
            assert(evs.last() matches ServerEvent::Hello { payload } && is_hello_payload(
                payload,
            ));
            assert(evs[evs.len() - 1] == (ServerEvent::Hello { payload: Some(hello_token()) }));
            assert(!(st is Established));
        },
        ServerHandshake::AwaitResponse { challenge: c } => {
            lemma_established_provenance(prev, mid);
            let h = choose|i: int|
                0 <= i < prev.len() && prev[i] == (ServerEvent::Hello {
                    payload: Some(hello_token()),
                });
            assert(evs[h] == prev[h]);
            if st is Established {
                // the last event was the correct echo of the awaited challenge
                lemma_await_response_wf(prev, mid);
                assert(evs.last() matches ServerEvent::Reply { plaintext: Some(p) } && p == c@);
                assert(evs[evs.len() - 1] == (ServerEvent::Reply { plaintext: Some(c@) })
                    && challenge_wf(c@));
            }
        },
        ServerHandshake::Established => {
            // Established only stutters
            lemma_established_provenance(prev, mid);
            let h = choose|i: int|
                0 <= i < prev.len() && prev[i] == (ServerEvent::Hello {
                    payload: Some(hello_token()),
                });
            assert(evs[h] == prev[h]);
            let (e, c): (int, Seq<u8>) = choose|i: int, c: Seq<u8>|
                0 <= i < prev.len() && prev[i] == (ServerEvent::Reply { plaintext: Some(c) })
                    && challenge_wf(c);
            assert(evs[e] == prev[e]);
            assert(evs[e] == (ServerEvent::Reply { plaintext: Some(c) }) && challenge_wf(c));
        },
        ServerHandshake::Rejected { .. } => {
            // Rejected never leads anywhere else, so this case cannot reach here
            assert(state_eq(st, mid));
            assert(false);
        },
    }
}

/// Completing the handshake establishes the connection: from the hello
/// token, through a successful challenge write, an echo of exactly the
/// challenge the server is waiting for ends in `Established`; any other
/// echo does not.
pub proof fn lemma_correct_echo_establishes(
    st1: ServerHandshake,
    st2: ServerHandshake,
    st3: ServerHandshake,
    hello: Option<Seq<u8>>,
    echo: Option<Seq<u8>>,
)
    requires
        is_hello_payload(hello),
        server_step(ServerHandshake::AwaitHello, ServerEvent::Hello { payload: hello }, st1),
        server_step(st1, ServerEvent::ChallengeWritten { ok: true }, st2),
        server_step(st2, ServerEvent::Reply { plaintext: echo }, st3),
    ensures
        st1 matches ServerHandshake::AwaitResponse { challenge } && challenge_wf(challenge@),
        st3 is Established <==> (st2 matches ServerHandshake::AwaitResponse { challenge } && echo
            == Some(challenge@)),
{
}

} // verus!
