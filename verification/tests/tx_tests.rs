use base64::Engine;
use p2p_ledger::crypto::Keypair;
use p2p_ledger::tx::{
    canonical_bytes, random_nonce, sign_tx, sign_tx_at, tx_id, verify_tx, verify_tx_at, SignedTx,
    TxError,
};

fn keys(b: u8) -> Keypair {
    Keypair::from_seed(vec![b; 32])
}

fn sample() -> SignedTx {
    SignedTx {
        version: 1,
        chain_id: 7,
        from_pubkey_b64: "AAEC".to_string(),
        nonce: 9,
        to: Some("bob".to_string()),
        value: 100,
        max_fee: 3,
        data_b64: "aGk=".to_string(),
        timestamp: 50,
        expiry: 60,
        sig_alg: "ed25519".to_string(),
        sig_b64: "sig".to_string(),
    }
}

#[test]
fn canonical_bytes_layout() {
    let expected: Vec<u8> = vec![
        84, 88, 124, 118, 49, 124, 0, 0, 0, 7, 0, 1, 2, 0, 0, 0, 0, 0, 0, 0, 9, 98, 111, 98, 0, 0,
        0, 0, 0, 0, 0, 0, 0, 0, 0, 0, 0, 0, 0, 100, 0, 0, 0, 0, 0, 0, 0, 3, 104, 105, 0, 0, 0, 0, 0,
        0, 0, 50, 0, 0, 0, 0, 0, 0, 0, 60,
    ];
    assert_eq!(canonical_bytes(&sample()), expected);
}

#[test]
fn canonical_bytes_skip_undecodable_fields() {
    let mut tx = sample();
    tx.from_pubkey_b64 = "***".to_string();
    tx.data_b64 = "***".to_string();
    tx.to = None;
    let bytes = canonical_bytes(&tx);
    assert_eq!(bytes.len(), 6 + 4 + 8 + 16 + 8 + 8 + 8);
}

#[test]
fn tx_id_vector() {
    assert_eq!(
        tx_id(&sample()),
        "c06c87b1e2d7ba24fc7d6f51f9f17176d360132689c151146be41d746e04e64b"
    );
}

#[test]
fn tx_id_ignores_signature_and_version() {
    let a = sample();
    let mut b = sample();
    b.sig_b64 = "other".to_string();
    b.sig_alg = "rsa".to_string();
    b.version = 9;
    assert_eq!(tx_id(&a), tx_id(&b));
    b.nonce = 10;
    assert_ne!(tx_id(&a), tx_id(&b));
}

#[test]
fn signed_tx_verifies() {
    let k = keys(3);
    let tx = sign_tx_at(&k, 1, 42, None, 5, 2, "aGk=".to_string(), 600, 1000);
    assert_eq!(tx.version, 1);
    assert_eq!(tx.timestamp, 1000);
    assert_eq!(tx.expiry, 1600);
    assert_eq!(tx.sig_alg, "ed25519");
    assert_eq!(verify_tx_at(&tx, 1000), Ok(()));
    assert_eq!(verify_tx_at(&tx, 1600), Ok(()));
    assert_eq!(verify_tx_at(&tx, 1601), Err(TxError::Expired));
}

#[test]
fn verify_errors() {
    let k = keys(3);
    let tx = sign_tx_at(&k, 1, 42, None, 5, 2, "aGk=".to_string(), 600, 1000);
    let mut t = tx.clone();
    t.sig_alg = "rsa".to_string();
    assert_eq!(verify_tx_at(&t, 1000), Err(TxError::UnsupportedSigAlg));
    let mut t = tx.clone();
    t.value = 6;
    let e = verify_tx_at(&t, 1000).unwrap_err();
    assert_eq!(
        e,
        TxError::VerifyFailed("signature error: Verification equation was not satisfied".to_string())
    );
    assert_eq!(e.message(), "verify failed: signature error: Verification equation was not satisfied");
    let decoder_text = base64::engine::general_purpose::STANDARD.decode("!!").unwrap_err().to_string();
    let mut t = tx.clone();
    t.from_pubkey_b64 = "!!".to_string();
    let e = verify_tx_at(&t, 1000).unwrap_err();
    assert_eq!(e, TxError::PubkeyEncoding(decoder_text.clone()));
    assert_eq!(e.message(), decoder_text);
    let mut t = tx.clone();
    t.from_pubkey_b64 = "AAEC".to_string();
    assert_eq!(verify_tx_at(&t, 1000), Err(TxError::PubkeyLength));
    let mut t = tx.clone();
    t.sig_b64 = "!!".to_string();
    assert_eq!(verify_tx_at(&t, 1000), Err(TxError::SignatureEncoding(decoder_text.clone())));
    let mut t = tx.clone();
    t.sig_b64 = "AAEC".to_string();
    assert_eq!(verify_tx_at(&t, 1000), Err(TxError::SignatureLength));
    let mut t = tx.clone();
    t.version = 2;
    assert_eq!(verify_tx_at(&t, 1000), Ok(()));
}

#[test]
fn verify_refuses_undecodable_key() {
    let k = keys(3);
    let mut t = sign_tx_at(&k, 1, 42, None, 5, 2, "aGk=".to_string(), 600, 1000);
    let mut bytes = [0u8; 32];
    bytes[31] = 0x10;
    let mut first = 0u8;
    loop {
        bytes[0] = first;
        if ed25519_dalek::VerifyingKey::from_bytes(&bytes).is_err() {
            break;
        }
        first += 1;
    }
    t.from_pubkey_b64 = base64::engine::general_purpose::STANDARD.encode(bytes);
    let parser_text = ed25519_dalek::VerifyingKey::from_bytes(&bytes).unwrap_err().to_string();
    assert_eq!(parser_text, "signature error: Cannot decompress Edwards point");
    let e = verify_tx_at(&t, 1000).unwrap_err();
    assert_eq!(e, TxError::PubkeyInvalid(parser_text.clone()));
    assert_eq!(e.message(), parser_text);
}

#[test]
fn sign_tx_now_verifies_now() {
    let k = keys(4);
    let tx = sign_tx(&k, 1, random_nonce().unwrap(), None, 0, 1, "aGk=".to_string(), 600).unwrap();
    assert_eq!(verify_tx(&tx), Some(Ok(())));
    assert!(sign_tx(&k, 1, 0, None, 0, 1, String::new(), u64::MAX).is_none());
}

#[test]
fn error_messages() {
    assert_eq!(TxError::FeeTooLow.message(), "fee too low");
    assert_eq!(TxError::NonceTooLow.message(), "nonce too low");
    assert_eq!(TxError::Expired.message(), "expired");
    assert_eq!(TxError::UnsupportedSigAlg.message(), "unsupported sig_alg");
    assert_eq!(TxError::PubkeyLength.message(), "bad pubkey len");
    assert_eq!(TxError::SignatureLength.message(), "bad sig len");
}
