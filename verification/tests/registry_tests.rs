use antimpeu::cipher::{open, seal};
use antimpeu::registry::Registry;
use antimpeu::session::{
    connect_notice, disconnect_notice, refusal_notice, session_on_read, SessionDirective,
    SessionState,
};
use antimpeu::errors::RejectReason;

fn key() -> Vec<u8> {
    (0u8..32).collect()
}

fn abc_registry() -> Registry {
    let mut reg = Registry::new();
    reg.insert("peer-a".to_string(), 1);
    reg.insert("peer-b".to_string(), 2);
    reg.insert("peer-c".to_string(), 3);
    reg
}

#[test]
fn relay_from_a_reaches_b_and_c_once_and_never_a() {
    let reg = abc_registry();
    let targets = reg.targets_excluding(&"peer-a".to_string());
    assert_eq!(targets, vec![2, 3]);

    // each target gets its own freshly sealed envelope, and each opens
    let k = key();
    let mut sealed = Vec::new();
    for _handle in &targets {
        sealed.push(seal(&k, b"hi from a", "peer-a"));
    }
    assert_ne!(sealed[0].nonce, sealed[1].nonce, "fan-out must reseal per target");
    for env in &sealed {
        assert_eq!(open(&k, env).unwrap(), b"hi from a".to_vec());
    }
}

#[test]
fn locally_originated_message_goes_to_everyone() {
    let reg = abc_registry();
    assert_eq!(reg.targets_all(), vec![1, 2, 3]);
}

#[test]
fn disconnect_removes_a_and_notifies_b_and_c_once() {
    let mut reg = abc_registry();

    // the reader loop sees the stream end
    let (st, directive) = session_on_read(SessionState::Active, None);
    assert_eq!(st, SessionState::Closed { reason: antimpeu::session::CloseReason::StreamEnded });
    assert!(matches!(directive, SessionDirective::Disconnect));

    assert!(reg.remove(&"peer-a".to_string()));
    assert_eq!(reg.len(), 2);
    assert!(!reg.contains_peer(&"peer-a".to_string()));

    let notice_targets = reg.targets_all();
    assert_eq!(notice_targets, vec![2, 3]);
    assert_eq!(disconnect_notice("peer-a"), "Disconnected from peer-a");

    // removing again reports absence and changes nothing
    assert!(!reg.remove(&"peer-a".to_string()));
    assert_eq!(reg.len(), 2);
}

#[test]
fn relayed_message_keeps_sender_and_text() {
    let (st, directive) = session_on_read(
        SessionState::Active,
        Some(("alice".to_string(), "tea?".to_string())),
    );
    assert_eq!(st, SessionState::Active);
    match directive {
        SessionDirective::Relay { sender, text } => {
            assert_eq!(sender, "alice");
            assert_eq!(text, "tea?");
        },
        SessionDirective::Disconnect => panic!("a decoded message must be relayed"),
    }
}

#[test]
fn registry_remove_keeps_order_of_the_rest() {
    let mut reg = Registry::new();
    reg.insert("w".to_string(), 10);
    reg.insert("x".to_string(), 11);
    reg.insert("y".to_string(), 12);
    reg.insert("z".to_string(), 13);
    reg.remove(&"x".to_string());
    assert_eq!(reg.targets_all(), vec![10, 12, 13]);
    assert_eq!(reg.handle_of(&"y".to_string()), Some(12));
    assert_eq!(reg.handle_of(&"x".to_string()), None);
}

#[test]
fn system_notice_texts_match_the_protocol() {
    assert_eq!(connect_notice("1.2.3.4:5"), "New connection from 1.2.3.4:5");
    assert_eq!(
        refusal_notice("1.2.3.4:5", RejectReason::NoHello),
        "Refused connection from 1.2.3.4:5."
    );
    assert_eq!(
        refusal_notice("1.2.3.4:5", RejectReason::WriteFailed),
        "Refused connection from 1.2.3.4:5 (handshake write failed)"
    );
    assert_eq!(
        refusal_notice("1.2.3.4:5", RejectReason::NoReply),
        "Refused connection from 1.2.3.4:5 (no handshake reply)"
    );
    assert_eq!(
        refusal_notice("1.2.3.4:5", RejectReason::ChallengeMismatch),
        "Refused connection from 1.2.3.4:5 (handshake mismatch)"
    );
}
