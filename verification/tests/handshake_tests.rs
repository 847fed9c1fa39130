use base64::Engine;
use p2p_ledger::crypto::{node_id, IdentityError, Keypair};
use p2p_ledger::handshake::{
    accept_identity, accept_server_identity, challenge, display_name, identity_message,
    message_for_line, new_challenge_nonce, read_challenge, short_id, starts_with_tx_command,
    welcome_message, HandshakeError,
};
use p2p_ledger::protocol::Msg;
use p2p_ledger::tx::verify_tx_at;

fn keys(b: u8) -> Keypair {
    Keypair::from_seed(vec![b; 32])
}

#[test]
fn challenge_round_trip() {
    let nonce = new_challenge_nonce().unwrap();
    assert_eq!(nonce.len(), 32);
    let m = challenge(&nonce);
    match &m {
        Msg::Challenge { nonce_b64 } => {
            assert_eq!(*nonce_b64, base64::engine::general_purpose::STANDARD.encode(&nonce))
        }
        _ => panic!("not a challenge"),
    }
    assert_eq!(read_challenge(&m).unwrap(), nonce);
}

#[test]
fn read_challenge_errors() {
    let bad = Msg::Challenge { nonce_b64: "%%".to_string() };
    let decoder_text = base64::engine::general_purpose::STANDARD.decode("%%").unwrap_err().to_string();
    assert_eq!(read_challenge(&bad).unwrap_err(), HandshakeError::NonceEncoding(decoder_text));
    let other = Msg::Welcome { text: "hi".to_string() };
    assert_eq!(read_challenge(&other).unwrap_err(), HandshakeError::UnexpectedMessage);
}

#[test]
fn mutual_identity() {
    let client = keys(1);
    let server = keys(2);
    let nonce = [5u8; 32];
    let client_id = node_id(&client.public_key);
    let m = identity_message(&client, "alice".to_string(), client_id.clone(), &nonce);
    let (name, id) = accept_identity(&nonce, &m).unwrap();
    assert_eq!(name, "alice");
    assert_eq!(id, client_id);
    let server_id = node_id(&server.public_key);
    let reply = identity_message(&server, "srv".to_string(), server_id, &nonce);
    let (srv_name, srv_key) = accept_server_identity(&nonce, &reply).unwrap();
    assert_eq!(srv_name, "srv");
    assert_eq!(srv_key, server.public_key);
}

#[test]
fn identity_refusals() {
    let client = keys(1);
    let nonce = [5u8; 32];
    let wrong = identity_message(&client, "a".to_string(), "0000".to_string(), &nonce);
    assert_eq!(
        accept_identity(&nonce, &wrong).unwrap_err(),
        HandshakeError::Identity(IdentityError::NodeIdMismatch)
    );
    let id = node_id(&client.public_key);
    let other_nonce = identity_message(&client, "a".to_string(), id, &[6u8; 32]);
    assert_eq!(
        accept_server_identity(&nonce, &other_nonce).unwrap_err(),
        HandshakeError::Identity(IdentityError::VerifyFailed(
            "signature error: Verification equation was not satisfied".to_string()
        ))
    );
    let not_identity = Msg::Ack { text: String::new() };
    assert_eq!(accept_identity(&nonce, &not_identity).unwrap_err(), HandshakeError::UnexpectedMessage);
    let short_key = Msg::Identity {
        name: "a".to_string(),
        node_id: "x".to_string(),
        pubkey_b64: "AAEC".to_string(),
        sig_b64: String::new(),
    };
    assert_eq!(
        accept_server_identity(&nonce, &short_key).unwrap_err(),
        HandshakeError::Identity(IdentityError::PubkeyLength)
    );
}

#[test]
fn welcome_and_names() {
    let id = "0123456789abcdef";
    assert_eq!(short_id(id), "01234567");
    match welcome_message("alice", "node-1", id) {
        Msg::Welcome { text } => {
            assert_eq!(text, "Welcome alice, connected to node-1 (id 01234567...)")
        }
        _ => panic!("not a welcome"),
    }
    assert_eq!(display_name("auto".to_string(), id), "node-01234567");
    assert_eq!(display_name("bob".to_string(), id), "bob");
    let real = node_id(&keys(4).public_key);
    assert_eq!(display_name("auto".to_string(), &real), format!("node-{}", &real[..8]));
}

#[test]
fn typed_lines() {
    let k = keys(3);
    let me = node_id(&k.public_key);
    assert!(starts_with_tx_command("/tx a"));
    assert!(!starts_with_tx_command("/tx"));
    assert!(!starts_with_tx_command("/tX a"));
    match message_for_line("/tx hello", &k, &me, 77, 1000) {
        Some(Msg::TxSubmit { tx }) => {
            assert_eq!(tx.data_b64, "aGVsbG8=");
            assert_eq!(tx.nonce, 77);
            assert_eq!(tx.chain_id, 1);
            assert_eq!(tx.max_fee, 1);
            assert_eq!(tx.value, 0);
            assert_eq!(tx.expiry, 1600);
            assert_eq!(verify_tx_at(&tx, 1000), Ok(()));
        }
        _ => panic!("not a submission"),
    }
    match message_for_line("/tx /tx hi", &k, &me, 1, 1000) {
        Some(Msg::TxSubmit { tx }) => assert_eq!(tx.data_b64, "aGk="),
        _ => panic!("not a submission"),
    }
    match message_for_line("/tx ", &k, &me, 1, 1000) {
        Some(Msg::TxSubmit { tx }) => assert_eq!(tx.data_b64, ""),
        _ => panic!("not a submission"),
    }
    match message_for_line("hello there", &k, &me, 1, 1000) {
        Some(Msg::App { from, text }) => {
            assert_eq!(from, me);
            assert_eq!(text, "hello there");
        }
        _ => panic!("not a chat line"),
    }
    assert!(message_for_line("", &k, &me, 1, 1000).is_none());
}
