//! Blocks: receipts, signed headers, header hashes, and Merkle roots over
//! lists of ids.

use vstd::prelude::*;
use crate::bytes::{append_bytes, be_bytes, push_be};
use crate::crypto::Keypair;
use crate::primitives::{
    base64_encode, base64_encoding, ed25519_sign, ed25519_signature, hex_encode, hex_lower, sha256,
    sha256_digest,
};
use crate::tx::{tx_id, tx_id_of, SignedTx};

verus! {

/// The outcome of one transaction in a block.
#[derive(Debug)]
pub struct TxReceipt {
    pub tx_id: String,
    pub status: bool,
    pub tx_index: u32,
    pub gas_used: u64,
    pub fee_paid: u64,
}

impl Clone for TxReceipt {
    fn clone(&self) -> (res: Self)
        ensures
            res == *self,
    {
        TxReceipt {
            tx_id: self.tx_id.clone(),
            status: self.status,
            tx_index: self.tx_index,
            gas_used: self.gas_used,
            fee_paid: self.fee_paid,
        }
    }
}

/// A block header; the proposer signs every field but the signature.
#[derive(Debug)]
pub struct BlockHeader {
    pub height: u64,
    pub slot: u64,
    pub epoch: u64,
    pub parent_hash: String,
    pub txs_root: String,
    pub receipts_root: String,
    pub timestamp: u64,
    pub proposer_pubkey_b64: String,
    pub signature_b64: String,
}

impl Clone for BlockHeader {
    fn clone(&self) -> (res: Self)
        ensures
            res == *self,
    {
        BlockHeader {
            height: self.height,
            slot: self.slot,
            epoch: self.epoch,
            parent_hash: self.parent_hash.clone(),
            txs_root: self.txs_root.clone(),
            receipts_root: self.receipts_root.clone(),
            timestamp: self.timestamp,
            proposer_pubkey_b64: self.proposer_pubkey_b64.clone(),
            signature_b64: self.signature_b64.clone(),
        }
    }
}

/// A block: its header, transactions, their receipts (in the same order),
/// and the header's hash.
#[derive(Debug)]
pub struct Block {
    pub header: BlockHeader,
    pub txs: Vec<SignedTx>,
    pub receipts: Vec<TxReceipt>,
    pub hash: String,
}

/// A block as a value: its header, transactions, receipts and hash.
pub struct BlockView {
    pub header: BlockHeader,
    pub txs: Seq<SignedTx>,
    pub receipts: Seq<TxReceipt>,
    pub hash: Seq<char>,
}

impl View for Block {
    type V = BlockView;

    open spec fn view(&self) -> BlockView {
        BlockView {
            header: self.header,
            txs: self.txs@,
            receipts: self.receipts@,
            hash: self.hash@,
        }
    }
}

/// A copy of a list of transactions.
pub fn clone_txs(txs: &Vec<SignedTx>) -> (res: Vec<SignedTx>)
    ensures
        res@ == txs@,
{
    let mut res: Vec<SignedTx> = Vec::new();
    let mut i: usize = 0;
    while i < txs.len()
        invariant
            i <= txs@.len(),
            res@ == txs@.take(i as int),
        decreases txs@.len() - i,
    {
        res.push(txs[i].clone());
        i = i + 1;
        assert(res@ =~= txs@.take(i as int));
    }
    assert(txs@.take(i as int) =~= txs@);
    res
}

/// A copy of a list of receipts.
pub fn clone_receipts(receipts: &Vec<TxReceipt>) -> (res: Vec<TxReceipt>)
    ensures
        res@ == receipts@,
{
    let mut res: Vec<TxReceipt> = Vec::new();
    let mut i: usize = 0;
    while i < receipts.len()
        invariant
            i <= receipts@.len(),
            res@ == receipts@.take(i as int),
        decreases receipts@.len() - i,
    {
        res.push(receipts[i].clone());
        i = i + 1;
        assert(res@ =~= receipts@.take(i as int));
    }
    assert(receipts@.take(i as int) =~= receipts@);
    res
}

impl Clone for Block {
    fn clone(&self) -> (res: Self)
        ensures
            res@ == self@,
    {
        Block {
            header: self.header.clone(),
            txs: clone_txs(&self.txs),
            receipts: clone_receipts(&self.receipts),
            hash: self.hash.clone(),
        }
    }
}

/// The bytes a header's signing digest is taken over: height, slot and epoch
/// (8 bytes big-endian each), the UTF-8 parent hash, transactions root and
/// receipts root, the timestamp (8), and the UTF-8 proposer key.
pub open spec fn header_preimage(h: BlockHeader) -> Seq<u8> {
    be_bytes(h.height as nat, 8) + be_bytes(h.slot as nat, 8) + be_bytes(h.epoch as nat, 8)
        + vstd::utf8::encode_utf8(h.parent_hash@) + vstd::utf8::encode_utf8(h.txs_root@)
        + vstd::utf8::encode_utf8(h.receipts_root@) + be_bytes(h.timestamp as nat, 8)
        + vstd::utf8::encode_utf8(h.proposer_pubkey_b64@)
}

/// The bytes a proposer signs: the SHA-256 digest of the header preimage.
pub open spec fn header_signing_bytes_of(h: BlockHeader) -> Seq<u8> {
    sha256_digest(header_preimage(h))
}

/// A header's hash: lower-case hex SHA-256 of its signing bytes.
pub open spec fn header_hash_of(h: BlockHeader) -> Seq<char> {
    hex_lower(sha256_digest(header_signing_bytes_of(h)))
}

/// The bytes a proposer signs for this header.
pub fn header_signing_bytes(h: &BlockHeader) -> (res: Vec<u8>)
    ensures
        res@ == header_signing_bytes_of(*h),
        res@.len() == 32,
{
    let mut pre: Vec<u8> = Vec::new();
    push_be(&mut pre, h.height as u128, 8);
    push_be(&mut pre, h.slot as u128, 8);
    push_be(&mut pre, h.epoch as u128, 8);
    append_bytes(&mut pre, h.parent_hash.as_str().as_bytes());
    append_bytes(&mut pre, h.txs_root.as_str().as_bytes());
    append_bytes(&mut pre, h.receipts_root.as_str().as_bytes());
    push_be(&mut pre, h.timestamp as u128, 8);
    append_bytes(&mut pre, h.proposer_pubkey_b64.as_str().as_bytes());
    assert(pre@ =~= header_preimage(*h));
    sha256(pre.as_slice())
}

/// The hash of a header; it is always 64 hex digits.
pub fn header_hash(h: &BlockHeader) -> (res: String)
    ensures
        res@ == header_hash_of(*h),
        res@.len() == 64,
{
    let signing = header_signing_bytes(h);
    let digest = sha256(signing.as_slice());
    hex_encode(digest.as_slice())
}

// ------------------------------------------------------------------ Merkle roots

/// The byte strings of a list of byte vectors.
pub open spec fn byte_views(layer: Seq<Vec<u8>>) -> Seq<Seq<u8>> {
    layer.map_values(|v: Vec<u8>| v@)
}

/// The Merkle leaves of a list of texts: SHA-256 of each text's UTF-8 bytes.
pub open spec fn merkle_leaves(texts: Seq<Seq<char>>) -> Seq<Seq<u8>> {
    texts.map_values(|t: Seq<char>| sha256_digest(vstd::utf8::encode_utf8(t)))
}

/// The node over positions `2i` and `2i+1` of a layer; an odd last node is
/// paired with itself.
pub open spec fn merkle_pair(layer: Seq<Seq<u8>>, i: int) -> Seq<u8> {
    sha256_digest(
        layer[2 * i] + if 2 * i + 1 < layer.len() {
            layer[2 * i + 1]
        } else {
            layer[2 * i]
        },
    )
}

/// The layer above: one node per pair.
pub open spec fn merkle_parent(layer: Seq<Seq<u8>>) -> Seq<Seq<u8>> {
    Seq::new(((layer.len() + 1) / 2) as nat, |i: int| merkle_pair(layer, i))
}

/// The root of a non-empty layer: hash pairs upward until one node is left.
pub open spec fn merkle_top(layer: Seq<Seq<u8>>) -> Seq<u8>
    decreases layer.len(),
{
    if layer.len() <= 1 {
        layer[0]
    } else {
        merkle_top(merkle_parent(layer))
    }
}

/// Sixty-four zero digits: the root of an empty list.
pub open spec fn empty_root() -> Seq<char> {
    Seq::new(64, |i: int| '0')
}

/// The hex Merkle root of a list of texts (64 zeros for an empty list).
pub open spec fn list_root_of(texts: Seq<Seq<char>>) -> Seq<char> {
    if texts.len() == 0 {
        empty_root()
    } else {
        hex_lower(merkle_top(merkle_leaves(texts)))
    }
}

/// The texts of a list of strings.
pub open spec fn texts_of(strings: Seq<String>) -> Seq<Seq<char>> {
    strings.map_values(|s: String| s@)
}

/// The hex Merkle root of a list of strings.
pub fn list_root_hex(strings: &[String]) -> (root: String)
    ensures
        root@ == list_root_of(texts_of(strings@)),
        root@.len() == 64,
{
    if strings.len() == 0 {
        let zeros = "0000000000000000000000000000000000000000000000000000000000000000".to_owned();
        proof {
            reveal_strlit("0000000000000000000000000000000000000000000000000000000000000000");
        }
        assert(zeros@ =~= empty_root());
        return zeros;
    }
    let ghost leaves = merkle_leaves(texts_of(strings@));
    let mut layer: Vec<Vec<u8>> = Vec::new();
    let mut i: usize = 0;
    while i < strings.len()
        invariant
            i <= strings@.len(),
            leaves == merkle_leaves(texts_of(strings@)),
            byte_views(layer@) == leaves.take(i as int),
            forall|j: int| 0 <= j < layer@.len() ==> (#[trigger] layer@[j])@.len() == 32,
        decreases strings@.len() - i,
    {
        let digest = sha256(strings[i].as_str().as_bytes());
        let ghost before = layer@;
        layer.push(digest);
        i = i + 1;
        assert(byte_views(layer@) =~= byte_views(before).push(digest@));
        assert(leaves.take(i as int) =~= leaves.take(i - 1).push(leaves[i - 1]));
    }
    assert(leaves.take(i as int) =~= leaves);
    while layer.len() > 1
        invariant
            layer@.len() >= 1,
            merkle_top(byte_views(layer@)) == merkle_top(leaves),
            forall|j: int| 0 <= j < layer@.len() ==> (#[trigger] layer@[j])@.len() == 32,
        decreases layer@.len(),
    {
        let ghost cur = byte_views(layer@);
        let mut next: Vec<Vec<u8>> = Vec::new();
        let half = layer.len() / 2 + layer.len() % 2;
        assert(half == (cur.len() + 1) / 2);
        let mut j: usize = 0;
        while j < half
            invariant
                cur == byte_views(layer@),
                layer@.len() >= 2,
                half == (layer@.len() + 1) / 2,
                j <= half,
                next@.len() == j,
                forall|q: int| 0 <= q < next@.len() ==> (#[trigger] next@[q])@ == merkle_pair(cur, q),
                forall|q: int| 0 <= q < next@.len() ==> (#[trigger] next@[q])@.len() == 32,
            decreases half - j,
        {
            assert(2 * j < layer@.len()) by (nonlinear_arith)
                requires
                    j < half,
                    half == (layer@.len() + 1) / 2,
            ;
            let n = layer.len();
            assert(2 * j < n);
            let p = 2 * j;
            let mut buf: Vec<u8> = Vec::new();
            append_bytes(&mut buf, layer[p].as_slice());
            if p + 1 < layer.len() {
                append_bytes(&mut buf, layer[p + 1].as_slice());
            } else {
                append_bytes(&mut buf, layer[p].as_slice());
            }
            assert(cur[2 * j] == layer@[p as int]@);
            assert(buf@ == cur[2 * j] + if 2 * j + 1 < cur.len() {
                cur[2 * j + 1]
            } else {
                cur[2 * j]
            });
            let node = sha256(buf.as_slice());
            next.push(node);
            j = j + 1;
        }
        assert(byte_views(next@) =~= merkle_parent(cur));
        layer = next;
    }
    assert(byte_views(layer@) =~= seq![layer@[0]@]);
    let root = hex_encode(layer[0].as_slice());
    root
}

// ------------------------------------------------------------------ block assembly

/// Gas charged per transaction.
pub const GAS_PER_TX: u64 = 21_000;

/// The ids of a list of transactions, in order.
pub open spec fn tx_ids_of(txs: Seq<SignedTx>) -> Seq<Seq<char>> {
    txs.map_values(|tx: SignedTx| tx_id_of(tx))
}

/// `r` is the receipt of `tx` at position `i`: a success charging the flat
/// gas and the transaction's full fee.
pub open spec fn is_receipt_for(r: TxReceipt, tx: SignedTx, i: int) -> bool {
    &&& r.tx_id@ == tx_id_of(tx)
    &&& r.status
    &&& r.tx_index == i
    &&& r.gas_used == GAS_PER_TX
    &&& r.fee_paid == tx.max_fee
}

/// `b` is the block a proposer with `keys` assembles from `txs` at the given
/// height, slot, epoch, parent and time: one receipt per transaction, both
/// roots the Merkle root of the transaction ids, the proposer's key in
/// base64, its signature (base64) over the header's signing bytes, and the
/// header's hash.
pub open spec fn is_assembled_block(
    b: BlockView,
    txs: Seq<SignedTx>,
    height: u64,
    slot: u64,
    epoch: u64,
    parent_hash: Seq<char>,
    timestamp: u64,
    keys: Keypair,
) -> bool {
    &&& b.txs == txs
    &&& b.receipts.len() == txs.len()
    &&& forall|i: int| 0 <= i < txs.len() ==> is_receipt_for(#[trigger] b.receipts[i], txs[i], i)
    &&& b.header.height == height
    &&& b.header.slot == slot
    &&& b.header.epoch == epoch
    &&& b.header.parent_hash@ == parent_hash
    &&& b.header.txs_root@ == list_root_of(tx_ids_of(txs))
    &&& b.header.receipts_root@ == list_root_of(tx_ids_of(txs))
    &&& b.header.timestamp == timestamp
    &&& b.header.proposer_pubkey_b64@ == base64_encoding(keys.public_key@)
    &&& b.header.signature_b64@ == base64_encoding(
        ed25519_signature(keys.seed@, header_signing_bytes_of(b.header)),
    )
    &&& b.hash == header_hash_of(b.header)
}

/// Assembles and signs a block over `txs`.
pub fn assemble_block(
    txs: Vec<SignedTx>,
    height: u64,
    slot: u64,
    epoch: u64,
    parent_hash: String,
    timestamp: u64,
    keys: &Keypair,
) -> (block: Block)
    requires
        keys.wf(),
        txs@.len() <= u32::MAX,
    ensures
        is_assembled_block(block@, txs@, height, slot, epoch, parent_hash@, timestamp, *keys),
{
    let mut receipts: Vec<TxReceipt> = Vec::new();
    let mut ids: Vec<String> = Vec::new();
    let mut i: usize = 0;
    while i < txs.len()
        invariant
            i <= txs@.len(),
            txs@.len() <= u32::MAX,
            receipts@.len() == i,
            texts_of(ids@) == tx_ids_of(txs@).take(i as int),
            forall|j: int| 0 <= j < i ==> is_receipt_for(#[trigger] receipts@[j], txs@[j], j),
        decreases txs@.len() - i,
    {
        let id = tx_id(&txs[i]);
        let ghost before = ids@;
        ids.push(id.clone());
        receipts.push(
            TxReceipt {
                tx_id: id,
                status: true,
                tx_index: i as u32,
                gas_used: GAS_PER_TX,
                fee_paid: txs[i].max_fee,
            },
        );
        i = i + 1;
        assert(texts_of(ids@) =~= texts_of(before).push(tx_id_of(txs@[i - 1])));
        assert(tx_ids_of(txs@).take(i as int) =~= tx_ids_of(txs@).take(i - 1).push(
            tx_id_of(txs@[i - 1]),
        ));
    }
    assert(tx_ids_of(txs@).take(i as int) =~= tx_ids_of(txs@));
    let txs_root = list_root_hex(ids.as_slice());
    let receipts_root = list_root_hex(ids.as_slice());
    let mut header = BlockHeader {
        height,
        slot,
        epoch,
        parent_hash,
        txs_root,
        receipts_root,
        timestamp,
        proposer_pubkey_b64: base64_encode(keys.public_key.as_slice()),
        signature_b64: String::new(),
    };
    let signing = header_signing_bytes(&header);
    let sig = ed25519_sign(keys.seed.as_slice(), signing.as_slice());
    header.signature_b64 = base64_encode(sig.as_slice());
    assert(header_signing_bytes_of(header) == signing@);
    let hash = header_hash(&header);
    Block { header, txs, receipts, hash }
}

/// A header's signing bytes and hash do not depend on its signature.
pub proof fn lemma_header_hash_ignores_signature(a: BlockHeader, b: BlockHeader)
    requires
        a.height == b.height,
        a.slot == b.slot,
        a.epoch == b.epoch,
        a.parent_hash == b.parent_hash,
        a.txs_root == b.txs_root,
        a.receipts_root == b.receipts_root,
        a.timestamp == b.timestamp,
        a.proposer_pubkey_b64 == b.proposer_pubkey_b64,
    ensures
        header_signing_bytes_of(a) == header_signing_bytes_of(b),
        header_hash_of(a) == header_hash_of(b),
{
}

/// The Merkle root of one text is the hex SHA-256 of its UTF-8 bytes; of two,
/// the hex SHA-256 of their two leaves concatenated.
pub proof fn lemma_small_roots(a: Seq<char>, b: Seq<char>)
    ensures
        list_root_of(seq![a]) == hex_lower(sha256_digest(vstd::utf8::encode_utf8(a))),
        list_root_of(seq![a, b]) == hex_lower(
            sha256_digest(
                sha256_digest(vstd::utf8::encode_utf8(a)) + sha256_digest(
                    vstd::utf8::encode_utf8(b),
                ),
            ),
        ),
{
    let one = merkle_leaves(seq![a]);
    assert(one.len() == 1);
    let two = merkle_leaves(seq![a, b]);
    assert(two.len() == 2);
    let up = merkle_parent(two);
    assert(up.len() == 1);
    assert(merkle_top(up) == up[0]);
}

} // verus!
