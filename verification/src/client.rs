//! The decisions of a connecting node: its local mempool and view of the
//! chain, checked against the blocks the listener sends.

use vstd::prelude::*;
use crate::chain::{
    header_hash, header_hash_of, header_signing_bytes, header_signing_bytes_of, is_assembled_block,
    tx_ids_of, Block, BlockView,
};
use crate::clock::{finality_after, finality_fits, finality_in_range, finalized_height_after};
use crate::crypto::Keypair;
use crate::mempool::TxStore;
use crate::primitives::{
    base64_decode, base64_decode_error_text, base64_decoding, ed25519_key_error_text,
    ed25519_key_valid, ed25519_verify_error_text, ed25519_signature, ed25519_strict_accepts,
    ed25519_verify_strict,
};
use crate::tx::{tx_id, tx_id_of, SignedTx, TxError};

verus! {

/// Why a block from the listener was refused. Where the decoder or the
/// signature library refused it, the refusal carries that library's own
/// error text.
#[derive(Debug, PartialEq, Eq)]
pub enum BlockError {
    /// The block's hash is not its header's hash.
    BadBlockHash,
    /// The header signature is not valid base64: the decoder's error text.
    SignatureEncoding(String),
    /// The header signature is not 64 bytes.
    SignatureLength,
    /// The header signature does not verify under the listener's key: the
    /// signature library's error text.
    SignatureInvalid(String),
}

/// A block refusal as the contracts see it, its texts as character
/// sequences.
pub enum BlockFault {
    BadBlockHash,
    SignatureEncoding(Seq<char>),
    SignatureLength,
    SignatureInvalid(Seq<char>),
}

impl View for BlockError {
    type V = BlockFault;

    open spec fn view(&self) -> BlockFault {
        match self {
            BlockError::BadBlockHash => BlockFault::BadBlockHash,
            BlockError::SignatureEncoding(t) => BlockFault::SignatureEncoding(t@),
            BlockError::SignatureLength => BlockFault::SignatureLength,
            BlockError::SignatureInvalid(t) => BlockFault::SignatureInvalid(t@),
        }
    }
}

/// A result with its block refusal taken by its view.
pub open spec fn block_view(r: Result<(), BlockError>) -> Result<(), BlockFault> {
    match r {
        Ok(v) => Ok(v),
        Err(e) => Err(e@),
    }
}

/// The text a block refusal is reported with: `bad block hash`, the
/// decoder's text, `bad sig len`, or `header sig verify failed: ` and the
/// signature library's text.
pub open spec fn block_error_text(e: BlockFault) -> Seq<char> {
    match e {
        BlockFault::BadBlockHash => "bad block hash"@,
        BlockFault::SignatureEncoding(t) => t,
        BlockFault::SignatureLength => "bad sig len"@,
        BlockFault::SignatureInvalid(t) => "header sig verify failed: "@ + t,
    }
}

impl BlockError {
    /// The text this refusal is reported with.
    pub fn message(&self) -> (text: String)
        ensures
            text@ == block_error_text(self@),
    {
        match self {
            BlockError::BadBlockHash => "bad block hash".to_owned(),
            BlockError::SignatureEncoding(t) => t.clone(),
            BlockError::SignatureLength => "bad sig len".to_owned(),
            BlockError::SignatureInvalid(t) => {
                let prefix = "header sig verify failed: ".to_owned();
                prefix.concat(t.as_str())
            },
        }
    }
}

/// The outcome of checking a block: its hash must be its header's hash and,
/// where the listener's key is known, the header signature must be base64 of
/// 64 bytes that strictly verify on the header's signing bytes.
pub open spec fn block_check(b: BlockView, server_key: Option<Seq<u8>>) -> Result<(), BlockFault> {
    if header_hash_of(b.header) != b.hash {
        Err(BlockFault::BadBlockHash)
    } else {
        match server_key {
            None => Ok(()),
            Some(pk) => match base64_decoding(b.header.signature_b64@) {
                None => Err(
                    BlockFault::SignatureEncoding(base64_decode_error_text(b.header.signature_b64@)),
                ),
                Some(sig) => if sig.len() != 64 {
                    Err(BlockFault::SignatureLength)
                } else if !ed25519_key_valid(pk) {
                    Err(BlockFault::SignatureInvalid(ed25519_key_error_text(pk)))
                } else if !ed25519_strict_accepts(pk, header_signing_bytes_of(b.header), sig) {
                    Err(
                        BlockFault::SignatureInvalid(
                            ed25519_verify_error_text(pk, header_signing_bytes_of(b.header), sig),
                        ),
                    )
                } else {
                    Ok(())
                },
            },
        }
    }
}

/// A connecting node's local state.
pub struct ClientView {
    mempool: TxStore,
    tip_height: u64,
    finalized_height: u64,
    server_key: Option<Vec<u8>>,
}

/// The byte string of an optional key.
pub open spec fn key_view(k: Option<Vec<u8>>) -> Option<Seq<u8>> {
    match k {
        Some(v) => Some(v@),
        None => None,
    }
}

impl ClientView {
    /// The local mempool.
    pub closed spec fn mempool_spec(&self) -> TxStore {
        self.mempool
    }

    /// The height of the latest accepted block.
    pub closed spec fn tip_height_spec(&self) -> u64 {
        self.tip_height
    }

    /// The highest finalized height.
    pub closed spec fn finalized_height_spec(&self) -> u64 {
        self.finalized_height
    }

    /// The listener's public key, if known.
    pub closed spec fn server_key_spec(&self) -> Option<Seq<u8>> {
        key_view(self.server_key)
    }

    /// A well-formed mempool and, if known, a 32-byte listener key.
    pub closed spec fn wf(&self) -> bool {
        &&& self.mempool.wf()
        &&& self.server_key matches Some(k) ==> k@.len() == 32
    }

    /// A fresh view with an empty default mempool, at height 0, trusting the
    /// listener key it authenticated (if any).
    pub fn new(server_key: Option<Vec<u8>>) -> (view: ClientView)
        requires
            server_key matches Some(k) ==> k@.len() == 32,
        ensures
            view.wf(),
            view.mempool_spec().entries() == Seq::<(Seq<char>, SignedTx)>::empty(),
            view.mempool_spec().seen_ids() == Seq::<Seq<char>>::empty(),
            view.mempool_spec().nonce_floors() == Map::<Seq<char>, u64>::empty(),
            view.mempool_spec().capacity_spec() == 50_000,
            view.mempool_spec().min_fee_spec() == 0,
            view.tip_height_spec() == 0,
            view.finalized_height_spec() == 0,
            view.server_key_spec() == key_view(server_key),
    {
        ClientView { mempool: TxStore::default(), tip_height: 0, finalized_height: 0, server_key }
    }

    /// The number of transactions in the local mempool.
    pub fn mempool_size(&self) -> (n: usize)
        ensures
            n == self.mempool_spec().entries().len(),
    {
        self.mempool.len()
    }

    /// The finalized height.
    pub fn finalized_height(&self) -> (h: u64)
        ensures
            h == self.finalized_height_spec(),
    {
        self.finalized_height
    }

    /// Admits an announced transaction to the local mempool as of time
    /// `now` (see `TxStore::insert_spec`).
    pub fn on_tx_announce_at(&mut self, tx: SignedTx, now: u64) -> (res: Result<
        (String, bool, String),
        TxError,
    >)
        requires
            old(self).wf(),
        ensures
            final(self).wf(),
            TxStore::insert_spec(old(self).mempool_spec(), final(self).mempool_spec(), tx, now, res),
            final(self).tip_height_spec() == old(self).tip_height_spec(),
            final(self).finalized_height_spec() == old(self).finalized_height_spec(),
            final(self).server_key_spec() == old(self).server_key_spec(),
    {
        self.mempool.insert_if_new_at(tx, now)
    }

    /// Checks a block from the listener (see `block_check`) without
    /// changing anything.
    pub fn check_block(&self, block: &Block) -> (res: Result<(), BlockError>)
        requires
            self.wf(),
        ensures
            block_view(res) == block_check(block@, self.server_key_spec()),
    {
        let hash = header_hash(&block.header);
        if hash != block.hash {
            return Err(BlockError::BadBlockHash);
        }
        match &self.server_key {
            Some(pk) => {
                let sig = match base64_decode(block.header.signature_b64.as_str()) {
                    Ok(bytes) => bytes,
                    Err(msg) => {
                        return Err(BlockError::SignatureEncoding(msg));
                    },
                };
                if sig.len() != 64 {
                    return Err(BlockError::SignatureLength);
                }
                let signing = header_signing_bytes(&block.header);
                match ed25519_verify_strict(pk.as_slice(), signing.as_slice(), sig.as_slice()) {
                    Ok(()) => {},
                    Err(text) => {
                        return Err(BlockError::SignatureInvalid(text));
                    },
                }
            },
            None => {},
        }
        Ok(())
    }

    /// Checks a block from the listener (see `block_check`); an accepted
    /// block's transactions leave the local mempool, its height becomes the
    /// tip, and finality advances (see `finality_after`). A refused block
    /// changes nothing.
    pub fn on_new_block(&mut self, block: &Block) -> (res: Result<(), BlockError>)
        requires
            old(self).wf(),
            block_check(block@, old(self).server_key_spec()) is Ok ==> finality_fits(
                block.header.slot,
                block.header.epoch,
            ),
        ensures
            new_block_outcome(*old(self), *final(self), block@, res),
    {
        match self.check_block(block) {
            Err(e) => {
                return Err(e);
            },
            Ok(()) => {},
        }
        let ghost start = self.mempool.entries();
        let ghost ids = tx_ids_of(block.txs@);
        let mut i: usize = 0;
        while i < block.txs.len()
            invariant
                self.mempool.wf(),
                self.server_key == old(self).server_key,
                self.tip_height == old(self).tip_height,
                self.finalized_height == old(self).finalized_height,
                self.mempool.seen_ids() == old(self).mempool.seen_ids(),
                self.mempool.nonce_floors() == old(self).mempool.nonce_floors(),
                self.mempool.capacity_spec() == old(self).mempool.capacity_spec(),
                self.mempool.min_fee_spec() == old(self).mempool.min_fee_spec(),
                block_check(block@, old(self).server_key_spec()) is Ok,
                start == old(self).mempool.entries(),
                ids == tx_ids_of(block.txs@),
                i <= block.txs@.len(),
                pruned(start, self.mempool.entries(), ids.take(i as int)),
            decreases block.txs@.len() - i,
        {
            let id = tx_id(&block.txs[i]);
            let ghost pre = self.mempool.entries();
            let _ = self.mempool.remove(&id);
            proof {
                let post = self.mempool.entries();
                let done = ids.take(i + 1);
                assert(done =~= ids.take(i as int).push(id@));
                assert(forall|e: (Seq<char>, SignedTx)| post.contains(e) ==> pre.contains(e)
                    && e.0 != id@) by {
                    assert forall|e: (Seq<char>, SignedTx)| post.contains(e) implies pre.contains(e)
                        && e.0 != id@ by {
                        let j = choose|j: int| 0 <= j < post.len() && post[j] == e;
                        if post != pre {
                            let k = choose|k: int|
                                0 <= k < pre.len() && pre[k].0 == id@ && post == pre.remove(k);
                            if j < k {
                                assert(pre[j] == e);
                            } else {
                                assert(pre[j + 1] == e);
                            }
                        }
                        assert(crate::mempool::ids_of(post)[j] == e.0);
                    }
                }
                assert forall|e: (Seq<char>, SignedTx)|
                    pre.contains(e) && e.0 != id@ implies post.contains(e) by {
                    let j = choose|j: int| 0 <= j < pre.len() && pre[j] == e;
                    if post != pre {
                        let k = choose|k: int|
                            0 <= k < pre.len() && pre[k].0 == id@ && post == pre.remove(k);
                        if j < k {
                            assert(post[j] == e);
                        } else {
                            assert(j != k);
                            assert(post[j - 1] == e);
                        }
                    }
                }
                let before = ids.take(i as int);
                assert forall|x: Seq<char>| #[trigger] done.contains(x) == (before.contains(x) || x
                    == id@) by {
                    if done.contains(x) {
                        let j = choose|j: int| 0 <= j < done.len() && done[j] == x;
                        if j < before.len() {
                            assert(before[j] == x);
                        }
                    }
                    if before.contains(x) {
                        let j = choose|j: int| 0 <= j < before.len() && before[j] == x;
                        assert(done[j] == x);
                    }
                    if x == id@ {
                        assert(done[before.len() as int] == x);
                    }
                }
                assert(pruned(start, post, done));
            }
            i = i + 1;
        }
        assert(ids.take(i as int) =~= ids);
        self.tip_height = block.header.height;
        self.finalized_height = finalized_height_after(
            self.finalized_height,
            block.header.slot,
            block.header.epoch,
        );
        Ok(())
    }

    /// Takes a block from the listener: as `on_new_block` where the block is
    /// refused or its finality fits in a `u64`; `None`, with nothing changed,
    /// for a block that checks out but would move finality past `u64::MAX`.
    pub fn receive_block(&mut self, block: &Block) -> (res: Option<Result<(), BlockError>>)
        requires
            old(self).wf(),
        ensures
            res is None <==> (block_check(block@, old(self).server_key_spec()) is Ok
                && !finality_fits(block.header.slot, block.header.epoch)),
            res is None ==> *final(self) == *old(self),
            res matches Some(r) ==> new_block_outcome(*old(self), *final(self), block@, r),
    {
        if !finality_in_range(block.header.slot, block.header.epoch) {
            match self.check_block(block) {
                Ok(()) => {
                    return None;
                },
                Err(e) => {
                    return Some(Err(e));
                },
            }
        }
        Some(self.on_new_block(block))
    }
}

/// Whether `post`, with result `res`, is what `on_new_block` makes of `pre`
/// for block `b`: the result is `block_check`; a refused block changes
/// nothing; an accepted one prunes its transactions from the mempool (whose
/// seen ids, nonce floors, capacity and fee floor stay), becomes the tip and
/// advances finality (see `finality_after`). The listener key never changes.
pub open spec fn new_block_outcome(
    pre: ClientView,
    post: ClientView,
    b: BlockView,
    res: Result<(), BlockError>,
) -> bool {
    &&& post.wf()
    &&& block_view(res) == block_check(b, pre.server_key_spec())
    &&& post.server_key_spec() == pre.server_key_spec()
    &&& res is Err ==> {
        &&& post.mempool_spec() == pre.mempool_spec()
        &&& post.tip_height_spec() == pre.tip_height_spec()
        &&& post.finalized_height_spec() == pre.finalized_height_spec()
    }
    &&& res is Ok ==> {
        &&& post.tip_height_spec() == b.header.height
        &&& post.finalized_height_spec() == finality_after(
            pre.finalized_height_spec(),
            b.header.slot,
            b.header.epoch,
        )
        &&& pruned(pre.mempool_spec().entries(), post.mempool_spec().entries(), tx_ids_of(b.txs))
        &&& post.mempool_spec().seen_ids() == pre.mempool_spec().seen_ids()
        &&& post.mempool_spec().nonce_floors() == pre.mempool_spec().nonce_floors()
        &&& post.mempool_spec().capacity_spec() == pre.mempool_spec().capacity_spec()
        &&& post.mempool_spec().min_fee_spec() == pre.mempool_spec().min_fee_spec()
    }
}

/// `post` is `pre` without the entries whose ids are in `ids`: it keeps
/// exactly the other entries.
pub open spec fn pruned(
    pre: Seq<(Seq<char>, SignedTx)>,
    post: Seq<(Seq<char>, SignedTx)>,
    ids: Seq<Seq<char>>,
) -> bool {
    &&& forall|e: (Seq<char>, SignedTx)|
        #[trigger] post.contains(e) ==> pre.contains(e) && !ids.contains(e.0)
    &&& forall|e: (Seq<char>, SignedTx)|
        #[trigger] pre.contains(e) && !ids.contains(e.0) ==> post.contains(e)
}

} // verus!

verus! {

/// After a block is accepted, none of its transactions is left in the local
/// mempool, and every other entry still is.
pub proof fn lemma_accepted_block_clears_its_txs(
    pre: Seq<(Seq<char>, SignedTx)>,
    post: Seq<(Seq<char>, SignedTx)>,
    txs: Seq<SignedTx>,
)
    requires
        pruned(pre, post, tx_ids_of(txs)),
    ensures
        forall|j: int, k: int|
            0 <= j < txs.len() && 0 <= k < post.len() ==> (#[trigger] post[k]).0 != tx_id_of(
                #[trigger] txs[j],
            ),
        forall|k: int|
            0 <= k < pre.len() && !tx_ids_of(txs).contains(#[trigger] pre[k].0) ==> post.contains(
                pre[k],
            ),
{
    assert forall|j: int, k: int|
        0 <= j < txs.len() && 0 <= k < post.len() implies (#[trigger] post[k]).0 != tx_id_of(
        #[trigger] txs[j],
    ) by {
        assert(post.contains(post[k]));
        assert(tx_ids_of(txs)[j] == tx_id_of(txs[j]));
    }
    assert forall|k: int| 0 <= k < pre.len() && !tx_ids_of(txs).contains(#[trigger] pre[k].0) implies post.contains(
        pre[k],
    ) by {
        assert(pre.contains(pre[k]));
    }
}

/// A block assembled by a proposer passes the check of a node that trusts
/// the proposer's key, wherever the signature survives base64 and Ed25519
/// accepts it: assembling and checking agree on what the header signs.
pub proof fn lemma_assembled_block_accepted(
    b: BlockView,
    txs: Seq<SignedTx>,
    height: u64,
    slot: u64,
    epoch: u64,
    parent_hash: Seq<char>,
    timestamp: u64,
    keys: Keypair,
)
    requires
        keys.wf(),
        is_assembled_block(b, txs, height, slot, epoch, parent_hash, timestamp, keys),
        base64_decoding(b.header.signature_b64@) == Some(
            ed25519_signature(keys.seed@, header_signing_bytes_of(b.header)),
        ),
        ed25519_signature(keys.seed@, header_signing_bytes_of(b.header)).len() == 64,
        ed25519_key_valid(keys.public_key@),
        ed25519_strict_accepts(
            keys.public_key@,
            header_signing_bytes_of(b.header),
            ed25519_signature(keys.seed@, header_signing_bytes_of(b.header)),
        ),
    ensures
        block_check(b, Some(keys.public_key@)) is Ok,
        block_check(b, None) is Ok,
{
}

} // verus!
