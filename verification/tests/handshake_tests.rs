use antimpeu::cipher::{open, seal};
use antimpeu::errors::RejectReason;
use antimpeu::handshake::{
    client_hello, parse_challenge, server_on_hello, server_on_reply, server_on_write_result,
    ServerHandshake,
};
use antimpeu::registry::Registry;

fn key() -> Vec<u8> {
    (0u8..32).collect()
}

fn register_if_established(st: &ServerHandshake, reg: &mut Registry, peer: &str, handle: u64) {
    if matches!(st, ServerHandshake::Established) {
        let owned = peer.to_string();
        if !reg.contains_peer(&owned) {
            reg.insert(owned, handle);
        }
    }
}

#[test]
fn client_hello_is_the_exact_token() {
    assert_eq!(client_hello(), b"HELLO-ANTIMPEU".to_vec());
}

#[test]
fn wrong_token_is_rejected_and_never_registered() {
    let mut reg = Registry::new();
    let (st, frame) = server_on_hello(
        ServerHandshake::AwaitHello,
        Some(b"WRONG-TOKEN".to_vec()),
    );
    assert!(frame.is_none());
    match &st {
        ServerHandshake::Rejected { reason } => assert_eq!(*reason, RejectReason::NoHello),
        other => panic!("expected rejection, got {:?}", other),
    }
    register_if_established(&st, &mut reg, "10.0.0.1:5000", 1);
    assert_eq!(reg.len(), 0);
    assert!(!reg.contains_peer(&"10.0.0.1:5000".to_string()));
}

#[test]
fn hello_timeout_is_rejected() {
    let (st, frame) = server_on_hello(ServerHandshake::AwaitHello, None);
    assert!(frame.is_none());
    assert!(matches!(
        st,
        ServerHandshake::Rejected { reason: RejectReason::NoHello }
    ));
}

#[test]
fn full_handshake_establishes_and_registers_exactly_once() {
    let k = key();
    let mut reg = Registry::new();

    // client -> server: hello
    let hello = client_hello();
    let (st, frame) = server_on_hello(ServerHandshake::AwaitHello, Some(hello));
    let frame = frame.expect("a challenge frame must be issued");
    assert!(matches!(st, ServerHandshake::AwaitResponse { .. }));

    // server frame is CHAL: + 24 hex digits
    assert!(frame.starts_with(b"CHAL:"));
    assert_eq!(frame.len(), 5 + 24);

    // client: parse the challenge and echo it encrypted
    let challenge = parse_challenge(&frame).expect("client must accept the challenge frame");
    assert_eq!(challenge.len(), 24);
    let reply_env = seal(&k, &challenge, "alice");

    // server: write succeeded, then open the echo
    let st = server_on_write_result(st, true);
    let echoed = open(&k, &reply_env).expect("the echo is a fresh envelope under the key");
    let st = server_on_reply(st, Some(echoed));
    assert!(matches!(st, ServerHandshake::Established));

    register_if_established(&st, &mut reg, "10.0.0.1:5000", 7);
    assert_eq!(reg.len(), 1);
    assert!(reg.contains_peer(&"10.0.0.1:5000".to_string()));
    assert_eq!(reg.handle_of(&"10.0.0.1:5000".to_string()), Some(7));

    // a second registration attempt of the same peer changes nothing
    register_if_established(&st, &mut reg, "10.0.0.1:5000", 8);
    assert_eq!(reg.len(), 1);
    assert_eq!(reg.handle_of(&"10.0.0.1:5000".to_string()), Some(7));
}

#[test]
fn wrong_echo_is_a_challenge_mismatch() {
    let (st, _frame) = server_on_hello(ServerHandshake::AwaitHello, Some(client_hello()));
    let st = server_on_write_result(st, true);
    let st = server_on_reply(st, Some(b"0000000000000000000000000".to_vec()));
    assert!(matches!(
        st,
        ServerHandshake::Rejected { reason: RejectReason::ChallengeMismatch }
    ));
}

#[test]
fn missing_echo_is_no_reply() {
    let (st, _frame) = server_on_hello(ServerHandshake::AwaitHello, Some(client_hello()));
    let st = server_on_write_result(st, true);
    let st = server_on_reply(st, None);
    assert!(matches!(
        st,
        ServerHandshake::Rejected { reason: RejectReason::NoReply }
    ));
}

#[test]
fn failed_challenge_write_rejects() {
    let (st, _frame) = server_on_hello(ServerHandshake::AwaitHello, Some(client_hello()));
    let st = server_on_write_result(st, false);
    assert!(matches!(
        st,
        ServerHandshake::Rejected { reason: RejectReason::WriteFailed }
    ));
}

#[test]
fn two_handshakes_draw_different_challenges() {
    let (_s1, f1) = server_on_hello(ServerHandshake::AwaitHello, Some(client_hello()));
    let (_s2, f2) = server_on_hello(ServerHandshake::AwaitHello, Some(client_hello()));
    assert_ne!(f1.unwrap(), f2.unwrap());
}

#[test]
fn challenge_frame_without_prefix_is_refused_by_client() {
    assert!(parse_challenge(b"NOPE:abcdef").is_none());
    assert!(parse_challenge(b"CHA").is_none());
    assert_eq!(parse_challenge(b"CHAL:").unwrap(), Vec::<u8>::new());
    assert_eq!(parse_challenge(b"CHAL:ff00").unwrap(), b"ff00".to_vec());
}
