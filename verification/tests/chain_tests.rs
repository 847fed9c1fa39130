use base64::Engine;
use ed25519_dalek::Verifier;
use p2p_ledger::chain::{
    assemble_block, header_hash, header_signing_bytes, list_root_hex, BlockHeader, GAS_PER_TX,
};
use p2p_ledger::crypto::Keypair;
use p2p_ledger::tx::{sign_tx_at, tx_id};

fn header() -> BlockHeader {
    BlockHeader {
        height: 5,
        slot: 64,
        epoch: 2,
        parent_hash: "parent".to_string(),
        txs_root: "txr".to_string(),
        receipts_root: "rcr".to_string(),
        timestamp: 1000,
        proposer_pubkey_b64: "PK".to_string(),
        signature_b64: "sig".to_string(),
    }
}

#[test]
fn list_roots() {
    assert_eq!(list_root_hex(&[]), "0".repeat(64));
    assert_eq!(
        list_root_hex(&["a".to_string()]),
        "ca978112ca1bbdcafac231b39a23dc4da786eff8147c4e72b9807785afee48bb"
    );
    assert_eq!(
        list_root_hex(&["a".to_string(), "b".to_string()]),
        "e5a01fee14e0ed5c48714f22180f25ad8365b53f9779f79dc4a3d7e93963f94a"
    );
    assert_eq!(
        list_root_hex(&["a".to_string(), "b".to_string(), "c".to_string()]),
        "d31a37ef6ac14a2db1470c4316beb5592e6afd4465022339adafda76a18ffabe"
    );
}

#[test]
fn header_digest_and_hash() {
    let h = header();
    assert_eq!(
        hex::encode(header_signing_bytes(&h)),
        "de21151a6beef361a8f9d1b6ff59986ae1df292db4a5555689f04c9a8a5d48ac"
    );
    assert_eq!(
        header_hash(&h),
        "271f7afea614a0cb081a5e788bdc24fdf07bb89c204efe27173fdcf46a3ed137"
    );
}

#[test]
fn header_hash_ignores_signature() {
    let a = header();
    let mut b = header();
    b.signature_b64 = "different".to_string();
    assert_eq!(header_hash(&a), header_hash(&b));
    b.height = 6;
    assert_ne!(header_hash(&a), header_hash(&b));
}

#[test]
fn assembled_block() {
    let proposer = Keypair::from_seed(vec![9; 32]);
    let sender = Keypair::from_seed(vec![3; 32]);
    let txs = vec![
        sign_tx_at(&sender, 1, 1, None, 0, 4, String::new(), 600, 1000),
        sign_tx_at(&sender, 1, 2, None, 0, 7, String::new(), 600, 1000),
    ];
    let ids: Vec<String> = txs.iter().map(tx_id).collect();
    let block = assemble_block(txs.clone(), 3, 64, 2, "GENESIS".to_string(), 1234, &proposer);
    assert_eq!(block.header.height, 3);
    assert_eq!(block.header.parent_hash, "GENESIS");
    assert_eq!(block.header.txs_root, list_root_hex(&ids));
    assert_eq!(block.header.receipts_root, list_root_hex(&ids));
    assert_eq!(block.receipts.len(), 2);
    assert_eq!(block.receipts[1].tx_id, ids[1]);
    assert_eq!(block.receipts[1].tx_index, 1);
    assert_eq!(block.receipts[1].fee_paid, 7);
    assert_eq!(block.receipts[0].gas_used, GAS_PER_TX);
    assert!(block.receipts[0].status);
    assert_eq!(block.hash, header_hash(&block.header));
    let b64 = base64::engine::general_purpose::STANDARD;
    assert_eq!(block.header.proposer_pubkey_b64, b64.encode(&proposer.public_key));
    let sig: [u8; 64] = b64.decode(&block.header.signature_b64).unwrap().try_into().unwrap();
    let key: [u8; 32] = proposer.public_key.clone().try_into().unwrap();
    let vk = ed25519_dalek::VerifyingKey::from_bytes(&key).unwrap();
    assert!(vk
        .verify(&header_signing_bytes(&block.header), &ed25519_dalek::Signature::from_bytes(&sig))
        .is_ok());
    let empty = assemble_block(vec![], 1, 0, 0, "GENESIS".to_string(), 1, &proposer);
    assert_eq!(empty.header.txs_root, "0".repeat(64));
}
