use p2p_ledger::chain::header_hash;
use p2p_ledger::crypto::{node_id, Keypair};
use p2p_ledger::node::{NodeState, Outbound, BLOCK_BUFFER};
use p2p_ledger::protocol::Msg;
use p2p_ledger::tx::{sign_tx_at, tx_id, SignedTx};

const NOW: u64 = 1_700_000_010;

fn keys(b: u8) -> Keypair {
    Keypair::from_seed(vec![b; 32])
}

fn tx(k: &Keypair, nonce: u64) -> SignedTx {
    sign_tx_at(k, 1, nonce, None, 0, 1, "aGk=".to_string(), 600, NOW)
}

fn node_with_peers() -> NodeState {
    let mut node = NodeState::new();
    node.add_peer("p1".to_string(), "one".to_string());
    node.add_peer("p2".to_string(), "two".to_string());
    node.add_peer("p3".to_string(), "three".to_string());
    node
}

fn targets(out: &[Outbound]) -> Vec<String> {
    out.iter().map(|o| o.to.clone()).collect()
}

#[test]
fn peers_join_and_leave() {
    let mut node = NodeState::new();
    match node.add_peer("p1".to_string(), "one".to_string()) {
        Msg::Peers { members } => assert_eq!(members.len(), 1),
        _ => panic!("not a snapshot"),
    }
    match node.add_peer("p2".to_string(), "two".to_string()) {
        Msg::Peers { members } => {
            assert_eq!(members.len(), 2);
            assert_eq!(members[1].name, "two");
        }
        _ => panic!("not a snapshot"),
    }
    match node.add_peer("p1".to_string(), "uno".to_string()) {
        Msg::Peers { members } => {
            assert_eq!(members.len(), 2);
            assert_eq!(members[0].name, "uno");
        }
        _ => panic!("not a snapshot"),
    }
    assert!(node.has_peer(&"p2".to_string()));
    node.remove_peer(&"p2".to_string());
    assert!(!node.has_peer(&"p2".to_string()));
    node.remove_peer(&"p9".to_string());
    assert!(node.has_peer(&"p1".to_string()));
}

#[test]
fn chat_is_acknowledged() {
    let node = node_with_peers();
    let reply = node.on_app(&"p2".to_string(), &"hello".to_string()).unwrap();
    assert_eq!(reply.to, "p2");
    match reply.msg {
        Msg::Ack { text } => assert_eq!(text, "received: hello"),
        _ => panic!("not an ack"),
    }
    assert!(node.on_app(&"stranger".to_string(), &"x".to_string()).is_none());
}

#[test]
fn submission_is_acked_and_gossiped() {
    let mut node = node_with_peers();
    let t = tx(&keys(1), 1);
    let out = node.on_tx_submit_at(&"p2".to_string(), t.clone(), NOW);
    assert_eq!(targets(&out), vec!["p2", "p1", "p3"]);
    match &out[0].msg {
        Msg::TxAck { id, ok, err } => {
            assert_eq!(*id, tx_id(&t));
            assert!(*ok);
            assert!(err.is_none());
        }
        _ => panic!("not an ack"),
    }
    assert!(matches!(out[1].msg, Msg::TxAnnounce { .. }));
    assert_eq!(node.mempool_size(), 1);
    // a second submission is acked but not gossiped
    let again = node.on_tx_submit_at(&"p1".to_string(), t.clone(), NOW);
    assert_eq!(targets(&again), vec!["p1"]);
    // a refused one is acked with the reason
    let mut bad = tx(&keys(1), 2);
    bad.value = 5;
    let refused = node.on_tx_submit_at(&"p3".to_string(), bad.clone(), NOW);
    assert_eq!(refused.len(), 1);
    match &refused[0].msg {
        Msg::TxAck { id, ok, err } => {
            assert_eq!(*id, tx_id(&bad));
            assert!(!*ok);
            assert_eq!(err.as_deref(), Some("verify failed: signature error: Verification equation was not satisfied"));
        }
        _ => panic!("not an ack"),
    }
    // an unregistered sender gets no ack, the others still hear of a new tx
    let t3 = tx(&keys(1), 3);
    let out3 = node.on_tx_submit_at(&"stranger".to_string(), t3, NOW);
    assert_eq!(targets(&out3), vec!["p1", "p2", "p3"]);
}

#[test]
fn announcement_is_admitted_silently() {
    let mut node = NodeState::new();
    node.on_tx_announce_at(tx(&keys(1), 1), NOW);
    assert_eq!(node.mempool_size(), 1);
    node.on_tx_announce_at(tx(&keys(1), 1), NOW);
    assert_eq!(node.mempool_size(), 1);
}

#[test]
fn http_submission() {
    let server = keys(9);
    let mut node = node_with_peers();
    let t = tx(&keys(1), 1);
    let (resp, out) = node.submit_http_at(Some(t.clone()), None, &server, 0, NOW);
    assert_eq!(resp.id, tx_id(&t));
    assert!(resp.ok && resp.inserted);
    assert_eq!(resp.mempool_size, 1);
    assert_eq!(resp.time_to_next_slot_ms, 30_000);
    assert_eq!(targets(&out), vec!["p1", "p2", "p3"]);
    let (resp2, out2) = node.submit_http_at(Some(t), None, &server, 0, NOW);
    assert!(resp2.ok && !resp2.inserted);
    assert!(out2.is_empty());
    let (resp3, _) = node.submit_http_at(None, Some("hello".to_string()), &server, 42, NOW);
    assert!(resp3.ok && resp3.inserted);
    assert_eq!(resp3.mempool_size, 2);
    let (resp4, out4) = node.submit_http_at(None, None, &server, 0, NOW);
    assert!(!resp4.ok);
    assert_eq!(resp4.id, "");
    assert_eq!(resp4.err.as_deref(), Some("provide `tx` or `message`"));
    assert_eq!(resp4.mempool_size, 0);
    assert!(out4.is_empty());
    let mut bad = tx(&keys(1), 3);
    bad.sig_alg = "x".to_string();
    let (resp5, _) = node.submit_http_at(Some(bad), None, &server, 0, NOW);
    assert_eq!(resp5.err.as_deref(), Some("unsupported sig_alg"));
    assert_eq!(resp5.mempool_size, 2);
}

#[test]
fn blocks_chain_and_finality() {
    let server = keys(9);
    let mut node = node_with_peers();
    for n in 1..=3 {
        node.on_tx_announce_at(tx(&keys(1), n), NOW);
    }
    let (b1, out) = node.produce_block_at(32, 1, NOW, &server);
    assert_eq!(b1.header.height, 1);
    assert_eq!(b1.header.parent_hash, "GENESIS");
    assert_eq!(b1.txs.len(), 3);
    assert_eq!(b1.hash, header_hash(&b1.header));
    assert_eq!(node.tip_height(), 1);
    assert_eq!(node.mempool_size(), 0);
    assert_eq!(node.finalized_height(), 0);
    assert_eq!(targets(&out), vec!["p1", "p2", "p3"]);
    match &out[0].msg {
        Msg::NewBlock { block } => assert_eq!(block.hash, b1.hash),
        _ => panic!("not a block"),
    }
    let (b2, _) = node.produce_block_at(65, 2, NOW + 30, &server);
    assert_eq!(b2.header.parent_hash, b1.hash);
    assert_eq!(b2.header.height, 2);
    assert_eq!(node.finalized_height(), 0);
    let (_b3, _) = node.produce_block_at(64, 2, NOW + 60, &server);
    assert_eq!(node.finalized_height(), 31);
    let list = node.block_list();
    assert_eq!(list.len(), 3);
    assert_eq!(list[0].height, 3);
    assert_eq!(list[2].hash, b1.hash);
    assert_eq!(list[2].txs, 3);
    assert_eq!(node.block_at_height(2).unwrap().hash, b2.hash);
    assert!(node.block_at_height(9).is_none());
}

#[test]
fn block_takes_at_most_one_hundred() {
    let server = keys(9);
    let mut node = NodeState::new();
    for n in 1..=105 {
        node.on_tx_announce_at(tx(&keys(1), n), NOW);
    }
    let (b, _) = node.produce_block_at(1, 0, NOW, &server);
    assert_eq!(b.txs.len(), 100);
    assert_eq!(node.mempool_size(), 5);
}

#[test]
fn block_buffer_is_bounded() {
    let server = keys(9);
    let mut node = NodeState::new();
    for s in 0..(BLOCK_BUFFER as u64 + 3) {
        node.produce_block_at(s + 1, 0, NOW, &server);
    }
    let list = node.block_list();
    assert_eq!(list.len(), BLOCK_BUFFER);
    assert_eq!(list[0].height, BLOCK_BUFFER as u64 + 3);
    assert_eq!(list[BLOCK_BUFFER - 1].height, 4);
    assert!(node.block_at_height(3).is_none());
}

#[test]
fn lookups() {
    let server = keys(9);
    let mut node = NodeState::new();
    let t1 = tx(&keys(1), 1);
    let t2 = tx(&keys(1), 2);
    node.on_tx_announce_at(t1.clone(), NOW);
    let (b, _) = node.produce_block_at(1, 0, NOW, &server);
    node.on_tx_announce_at(t2.clone(), NOW);
    let in_pool = node.lookup_tx(&tx_id(&t2));
    assert!(in_pool.found);
    assert_eq!(in_pool.location, "mempool");
    assert_eq!(in_pool.tx.unwrap().nonce, 2);
    let in_block = node.lookup_tx(&tx_id(&t1));
    assert!(in_block.found);
    assert_eq!(in_block.location, "block");
    assert_eq!(in_block.tx.unwrap().nonce, 1);
    let r = in_block.block.unwrap();
    assert_eq!(r.hash, b.hash);
    assert!(!r.finalized || r.height == 0);
    assert_eq!(in_block.receipt.unwrap().tx_id, tx_id(&t1));
    let none = node.lookup_tx(&"nope".to_string());
    assert!(!none.found);
    assert_eq!(none.location, "none");
    assert_eq!(node.receipt_by_id(&tx_id(&t1)).unwrap().tx_index, 0);
    assert!(node.receipt_by_id(&tx_id(&t2)).is_none());
    let entries = node.mempool_entries();
    assert_eq!(entries.len(), 1);
    assert_eq!(entries[0].id, tx_id(&t2));
    assert_eq!(entries[0].nonce, 2);
    assert_eq!(entries[0].from, t2.from_pubkey_b64);
}

#[test]
fn debug_state() {
    let mut node = NodeState::new();
    node.on_tx_announce_at(tx(&keys(1), 1), NOW);
    let st = node.debug_state_at(NOW);
    assert_eq!(st.tip_height, 0);
    assert_eq!(st.mempool_size, 1);
    assert_eq!(st.slot, 0);
    assert_eq!(st.epoch, 0);
    assert_eq!(st.next_slot_in_ms, 30_000);
    assert_eq!(node.debug_state_at(NOW + 10).next_slot_in_ms, 20_000);
    assert_eq!(node_id(b"x").len(), 64);
}

#[test]
fn fresh_node_admits_a_first_transaction() {
    let mut node = NodeState::new();
    assert_eq!(node.mempool_size(), 0);
    node.on_tx_announce_at(tx(&keys(1), 0), NOW);
    assert_eq!(node.mempool_size(), 1);
}

#[test]
fn finality_reaches_the_last_block_two_epochs_back() {
    let server = keys(9);
    let mut node = NodeState::new();
    for slot in 1..=64u64 {
        node.produce_block_at(slot, slot / 32, NOW + slot, &server);
    }
    assert_eq!(node.finalized_height(), 31);
    let last_of_epoch_0 = node.block_at_height(31).unwrap();
    assert_eq!(last_of_epoch_0.header.epoch, 0);
    assert_eq!(node.block_at_height(32).unwrap().header.epoch, 1);
}
