use p2p_ledger::crypto::Keypair;
use p2p_ledger::mempool::TxStore;
use p2p_ledger::tx::{sign_tx_at, tx_id, SignedTx, TxError};

const NOW: u64 = 1_700_000_000;

fn keys(b: u8) -> Keypair {
    Keypair::from_seed(vec![b; 32])
}

fn tx(k: &Keypair, nonce: u64, fee: u64) -> SignedTx {
    sign_tx_at(k, 1, nonce, None, 0, fee, "aGk=".to_string(), 600, NOW)
}

#[test]
fn insert_new_then_known() {
    let k = keys(1);
    let t = tx(&k, 1, 1);
    let mut store = TxStore::default();
    let (id, inserted, from) = store.insert_if_new_at(t.clone(), NOW).unwrap();
    assert_eq!(id, tx_id(&t));
    assert!(inserted);
    assert_eq!(from, t.from_pubkey_b64);
    assert_eq!(store.len(), 1);
    let (id2, inserted2, _) = store.insert_if_new_at(t.clone(), NOW).unwrap();
    assert_eq!(id2, id);
    assert!(!inserted2);
    assert_eq!(store.len(), 1);
    assert!(store.contains_id(&id));
    assert_eq!(store.get(&id).unwrap().nonce, 1);
}

#[test]
fn refuses_invalid_expired_and_cheap() {
    let k = keys(1);
    let mut store = TxStore::new(10, 5);
    assert_eq!(store.insert_if_new_at(tx(&k, 1, 4), NOW), Err(TxError::FeeTooLow));
    assert_eq!(store.insert_if_new_at(tx(&k, 1, 5), NOW + 601), Err(TxError::Expired));
    let mut bad = tx(&k, 1, 5);
    bad.value = 9;
    assert_eq!(
        store.insert_if_new_at(bad, NOW),
        Err(TxError::VerifyFailed("signature error: Verification equation was not satisfied".to_string()))
    );
    assert_eq!(store.len(), 0);
    assert!(store.insert_if_new_at(tx(&k, 1, 5), NOW).unwrap().1);
}

#[test]
fn nonce_floor_per_sender() {
    let a = keys(1);
    let b = keys(2);
    let mut store = TxStore::default();
    assert!(store.insert_if_new_at(tx(&a, 5, 1), NOW).unwrap().1);
    assert_eq!(store.insert_if_new_at(tx(&a, 3, 1), NOW), Err(TxError::NonceTooLow));
    assert!(store.insert_if_new_at(tx(&a, 5, 2), NOW).unwrap().1);
    assert!(store.insert_if_new_at(tx(&a, 6, 1), NOW).unwrap().1);
    assert!(store.insert_if_new_at(tx(&b, 0, 1), NOW).unwrap().1);
    assert_eq!(store.len(), 4);
}

#[test]
fn known_tx_is_reported_before_nonce_check() {
    let a = keys(1);
    let mut store = TxStore::default();
    let old = tx(&a, 1, 1);
    store.insert_if_new_at(old.clone(), NOW).unwrap();
    store.insert_if_new_at(tx(&a, 9, 1), NOW).unwrap();
    let (_, inserted, _) = store.insert_if_new_at(old, NOW).unwrap();
    assert!(!inserted);
}

#[test]
fn capacity_evicts_oldest() {
    let a = keys(1);
    let mut store = TxStore::new(2, 0);
    let t1 = tx(&a, 1, 1);
    let t2 = tx(&a, 2, 1);
    let t3 = tx(&a, 3, 1);
    store.insert_if_new_at(t1.clone(), NOW).unwrap();
    store.insert_if_new_at(t2.clone(), NOW).unwrap();
    store.insert_if_new_at(t3.clone(), NOW).unwrap();
    assert_eq!(store.len(), 2);
    assert!(!store.contains_id(&tx_id(&t1)));
    assert_eq!(store.ids_recent(10), vec![tx_id(&t2), tx_id(&t3)]);
}

#[test]
fn capacity_zero_keeps_latest() {
    let a = keys(1);
    let mut store = TxStore::new(0, 0);
    store.insert_if_new_at(tx(&a, 1, 1), NOW).unwrap();
    let t2 = tx(&a, 2, 1);
    store.insert_if_new_at(t2.clone(), NOW).unwrap();
    assert_eq!(store.len(), 1);
    assert_eq!(store.ids_recent(1), vec![tx_id(&t2)]);
}

#[test]
fn drain_takes_oldest_first() {
    let a = keys(1);
    let mut store = TxStore::default();
    let txs: Vec<SignedTx> = (1..=5).map(|n| tx(&a, n, 1)).collect();
    for t in &txs {
        store.insert_if_new_at(t.clone(), NOW).unwrap();
    }
    let first = store.drain_block(2);
    assert_eq!(first.iter().map(|t| t.nonce).collect::<Vec<_>>(), vec![1, 2]);
    assert_eq!(store.len(), 3);
    let rest = store.drain_block(100);
    assert_eq!(rest.iter().map(|t| t.nonce).collect::<Vec<_>>(), vec![3, 4, 5]);
    assert_eq!(store.len(), 0);
    assert!(store.drain_block(3).is_empty());
}

#[test]
fn drained_ids_stay_seen_but_can_return() {
    let a = keys(1);
    let mut store = TxStore::default();
    let t = tx(&a, 1, 1);
    store.insert_if_new_at(t.clone(), NOW).unwrap();
    store.drain_block(1);
    // the nonce floor is still 1, so the same transaction is admitted again
    assert!(store.insert_if_new_at(t, NOW).unwrap().1);
}

#[test]
fn ids_recent_and_remove() {
    let a = keys(1);
    let mut store = TxStore::default();
    let t1 = tx(&a, 1, 1);
    let t2 = tx(&a, 2, 1);
    store.insert_if_new_at(t1.clone(), NOW).unwrap();
    store.insert_if_new_at(t2.clone(), NOW).unwrap();
    assert_eq!(store.ids_recent(1), vec![tx_id(&t1)]);
    assert!(store.remove(&tx_id(&t1)));
    assert!(!store.remove(&tx_id(&t1)));
    assert_eq!(store.ids_recent(5), vec![tx_id(&t2)]);
    assert!(store.get(&tx_id(&t1)).is_none());
    let listing = store.listing();
    assert_eq!(listing.len(), 1);
    assert_eq!(listing[0].0, tx_id(&t2));
}

#[test]
fn insert_with_clock() {
    let a = keys(1);
    let t = sign_tx_at(&a, 1, 1, None, 0, 1, String::new(), 600, p2p_ledger::clock::now_secs().unwrap());
    let mut store = TxStore::default();
    assert!(store.insert_if_new(t).unwrap().unwrap().1);
}
