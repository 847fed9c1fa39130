use base64::Engine;
use p2p_ledger::chain::header_hash;
use p2p_ledger::client::{BlockError, ClientView};
use p2p_ledger::crypto::Keypair;
use p2p_ledger::node::NodeState;
use p2p_ledger::tx::{sign_tx_at, SignedTx};

const NOW: u64 = 1_700_000_010;

fn keys(b: u8) -> Keypair {
    Keypair::from_seed(vec![b; 32])
}

fn tx(k: &Keypair, nonce: u64) -> SignedTx {
    sign_tx_at(k, 1, nonce, None, 0, 1, "aGk=".to_string(), 600, NOW)
}

#[test]
fn accepted_block_prunes_and_advances() {
    let server = keys(9);
    let mut node = NodeState::new();
    let mut view = ClientView::new(Some(server.public_key.clone()));
    let t1 = tx(&keys(1), 1);
    let t2 = tx(&keys(1), 2);
    node.on_tx_announce_at(t1.clone(), NOW);
    view.on_tx_announce_at(t1, NOW).unwrap();
    view.on_tx_announce_at(t2, NOW).unwrap();
    assert_eq!(view.mempool_size(), 2);
    let (block, _) = node.produce_block_at(64, 2, NOW, &server);
    assert_eq!(view.on_new_block(&block), Ok(()));
    assert_eq!(view.mempool_size(), 1);
    assert_eq!(view.finalized_height(), 31);
}

#[test]
fn refused_blocks_change_nothing() {
    let server = keys(9);
    let other = keys(8);
    let mut node = NodeState::new();
    let (block, _) = node.produce_block_at(64, 2, NOW, &server);
    let mut view = ClientView::new(Some(other.public_key.clone()));
    let e = view.on_new_block(&block).unwrap_err();
    assert_eq!(
        e,
        BlockError::SignatureInvalid("signature error: Verification equation was not satisfied".to_string())
    );
    assert_eq!(
        e.message(),
        "header sig verify failed: signature error: Verification equation was not satisfied"
    );
    assert_eq!(view.finalized_height(), 0);
    let mut tampered = block.clone();
    tampered.hash = "00".to_string();
    let mut trusting = ClientView::new(Some(server.public_key.clone()));
    assert_eq!(trusting.on_new_block(&tampered), Err(BlockError::BadBlockHash));
    assert_eq!(BlockError::BadBlockHash.message(), "bad block hash");
    let mut bad_sig = block.clone();
    bad_sig.header.signature_b64 = "***".to_string();
    let decoder_text = base64::engine::general_purpose::STANDARD.decode("***").unwrap_err().to_string();
    assert_eq!(trusting.on_new_block(&bad_sig), Err(BlockError::SignatureEncoding(decoder_text)));
    bad_sig.header.signature_b64 = "AAEC".to_string();
    assert_eq!(trusting.on_new_block(&bad_sig), Err(BlockError::SignatureLength));
    assert_eq!(BlockError::SignatureLength.message(), "bad sig len");
    let mut keyless = ClientView::new(None);
    assert_eq!(keyless.on_new_block(&bad_sig), Ok(()));
    assert_eq!(trusting.on_new_block(&block), Ok(()));
}

#[test]
fn finality_at_the_top_of_the_range() {
    let server = keys(9);
    let mut node = NodeState::new();
    let (block, _) = node.produce_block_at(64, 2, NOW, &server);
    let mut keyless = ClientView::new(None);

    let mut top = block.clone();
    top.header.slot = 0;
    top.header.epoch = u64::MAX / 32 + 2;
    top.hash = header_hash(&top.header);
    assert_eq!(keyless.check_block(&top), Ok(()));
    assert_eq!(keyless.receive_block(&top), Some(Ok(())));
    assert_eq!(keyless.finalized_height(), u64::MAX);

    let mut past = top.clone();
    past.header.epoch = u64::MAX / 32 + 3;
    past.hash = header_hash(&past.header);
    assert_eq!(keyless.receive_block(&past), None);
    assert_eq!(keyless.finalized_height(), u64::MAX);

    let mut refused = past.clone();
    refused.hash = "00".to_string();
    assert_eq!(keyless.receive_block(&refused), Some(Err(BlockError::BadBlockHash)));

    let mut first_epochs = top.clone();
    first_epochs.header.epoch = 1;
    first_epochs.hash = header_hash(&first_epochs.header);
    assert_eq!(keyless.receive_block(&first_epochs), Some(Ok(())));
    assert_eq!(keyless.finalized_height(), 0);
}
