//! The decisions of a listening node: its peers, its mempool, its chain tip
//! and recent blocks, what it answers to each message, what it gossips, and
//! what its HTTP interface reports. The caller performs the sends.

use vstd::prelude::*;
use std::collections::VecDeque;
use crate::chain::{
    assemble_block, header_hash_of, is_assembled_block, Block, BlockView, TxReceipt,
};
use crate::clock::{
    finality_after, finality_fits, finalized_height_after, next_slot_start_at, secs_until,
    slot_at, SlotClock, EPOCH_SLOTS,
};
use crate::crypto::Keypair;
use crate::mempool::{txs_of, TxStore};
use crate::primitives::{base64_encode, base64_encoding};
use crate::protocol::{Member, Msg};
use crate::tx::{
    is_signed_tx_of, opt_view, sign_tx_at, tx_error_text, tx_id, tx_id_of, SignedTx, TxError,
};

verus! {

/// How many recent blocks a node keeps.
pub const BLOCK_BUFFER: usize = 256;

/// A message to send to the peer with node id `to`.
#[derive(Debug)]
pub struct Outbound {
    pub to: String,
    pub msg: Msg,
}

/// The node ids of a list of members, in order.
pub open spec fn member_ids(peers: Seq<Member>) -> Seq<Seq<char>> {
    peers.map_values(|m: Member| m.node_id@)
}

/// Whether a node id is among the members.
pub open spec fn is_member(peers: Seq<Member>, id: Seq<char>) -> bool {
    member_ids(peers).contains(id)
}

/// Node ids in a member list are pairwise distinct.
pub open spec fn unique_members(peers: Seq<Member>) -> bool {
    forall|i: int, j: int| 0 <= i < j < peers.len() ==> peers[i].node_id@ != peers[j].node_id@
}

/// The position of a member's node id in the list (meaningful when it is a
/// member).
pub open spec fn member_pos(peers: Seq<Member>, id: Seq<char>) -> int {
    choose|k: int| 0 <= k < peers.len() && peers[k].node_id@ == id
}

/// The members after registering `m`: a known node id gets the new entry in
/// its place, a new one is appended.
pub open spec fn upsert_member(peers: Seq<Member>, m: Member) -> Seq<Member> {
    if is_member(peers, m.node_id@) {
        peers.update(member_pos(peers, m.node_id@), m)
    } else {
        peers.push(m)
    }
}

/// The members after dropping node id `id`.
pub open spec fn without_member(peers: Seq<Member>, id: Seq<char>) -> Seq<Member> {
    if is_member(peers, id) {
        peers.remove(member_pos(peers, id))
    } else {
        peers
    }
}

/// The node ids a message is gossiped to: every member, in order, but
/// `except`.
pub open spec fn gossip_targets(peers: Seq<Member>, except: Option<Seq<char>>) -> Seq<Seq<char>>
    decreases peers.len(),
{
    if peers.len() == 0 {
        Seq::empty()
    } else {
        let rest = gossip_targets(peers.drop_last(), except);
        if except == Some(peers.last().node_id@) {
            rest
        } else {
            rest.push(peers.last().node_id@)
        }
    }
}

/// `m` acknowledges a transaction submission.
pub open spec fn is_tx_ack(m: Msg, id: Seq<char>, ok: bool, err: Option<Seq<char>>) -> bool {
    m matches Msg::TxAck { id: i, ok: o, err: e } && i@ == id && o == ok && opt_view(e) == err
}

/// `out` sends `TxAnnounce { tx }` to each of `targets`, in order.
pub open spec fn announces(out: Seq<Outbound>, targets: Seq<Seq<char>>, tx: SignedTx) -> bool {
    &&& out.len() == targets.len()
    &&& forall|i: int|
        0 <= i < out.len() ==> (#[trigger] out[i]).to@ == targets[i] && out[i].msg
            == Msg::TxAnnounce { tx }
}

/// The state of a listening node.
pub struct NodeState {
    peers: Vec<Member>,
    txs: TxStore,
    tip_hash: String,
    tip_height: u64,
    finalized_height: u64,
    blocks: VecDeque<Block>,
}

impl NodeState {
    /// The authenticated peers, in order of joining.
    pub closed spec fn peers_spec(&self) -> Seq<Member> {
        self.peers@
    }

    /// The mempool.
    pub closed spec fn mempool(&self) -> TxStore {
        self.txs
    }

    /// The hash of the latest block ("GENESIS" before the first).
    pub closed spec fn tip_hash_spec(&self) -> Seq<char> {
        self.tip_hash@
    }

    /// The height of the latest block (0 before the first).
    pub closed spec fn tip_height_spec(&self) -> u64 {
        self.tip_height
    }

    /// The highest finalized height.
    pub closed spec fn finalized_height_spec(&self) -> u64 {
        self.finalized_height
    }

    /// The recent blocks, oldest first.
    pub closed spec fn blocks_spec(&self) -> Seq<BlockView> {
        self.blocks@.map_values(|b: Block| b@)
    }

    /// The node's invariant: a well-formed mempool, distinct peers, and at
    /// most `BLOCK_BUFFER` recent blocks that form a chain ending at the tip.
    pub closed spec fn wf(&self) -> bool {
        &&& self.txs.wf()
        &&& unique_members(self.peers@)
        &&& self.blocks@.len() <= BLOCK_BUFFER
        &&& is_chain_to(self.blocks_spec(), self.tip_hash@, self.tip_height)
    }

    /// A node with no peers, an empty default mempool, and the tip at
    /// "GENESIS", height 0.
    pub fn new() -> (node: NodeState)
        ensures
            node.wf(),
            node.peers_spec() == Seq::<Member>::empty(),
            node.mempool().entries() == Seq::<(Seq<char>, SignedTx)>::empty(),
            node.mempool().seen_ids() == Seq::<Seq<char>>::empty(),
            node.mempool().nonce_floors() == Map::<Seq<char>, u64>::empty(),
            node.mempool().capacity_spec() == 50_000,
            node.mempool().min_fee_spec() == 0,
            node.tip_hash_spec() == "GENESIS"@,
            node.tip_height_spec() == 0,
            node.finalized_height_spec() == 0,
            node.blocks_spec() == Seq::<BlockView>::empty(),
    {
        let node = NodeState {
            peers: Vec::new(),
            txs: TxStore::default(),
            tip_hash: "GENESIS".to_owned(),
            tip_height: 0,
            finalized_height: 0,
            blocks: VecDeque::new(),
        };
        assert(node.blocks_spec() =~= Seq::<BlockView>::empty());
        node
    }

    /// The number of transactions in the mempool.
    pub fn mempool_size(&self) -> (n: usize)
        ensures
            n == self.mempool().entries().len(),
    {
        self.txs.len()
    }

    /// The height of the latest block.
    pub fn tip_height(&self) -> (h: u64)
        ensures
            h == self.tip_height_spec(),
    {
        self.tip_height
    }

    /// The highest finalized height.
    pub fn finalized_height(&self) -> (h: u64)
        ensures
            h == self.finalized_height_spec(),
    {
        self.finalized_height
    }

    /// Where a peer stands in the member list, if it is a member.
    fn peer_position(&self, id: &String) -> (pos: Option<usize>)
        requires
            self.wf(),
        ensures
            match pos {
                Some(k) => k < self.peers@.len() && self.peers@[k as int].node_id@ == id@
                    && k == member_pos(self.peers@, id@) && is_member(self.peers@, id@),
                None => !is_member(self.peers@, id@),
            },
    {
        let mut i: usize = 0;
        while i < self.peers.len()
            invariant
                self.wf(),
                i <= self.peers@.len(),
                forall|j: int| 0 <= j < i ==> self.peers@[j].node_id@ != id@,
            decreases self.peers@.len() - i,
        {
            if self.peers[i].node_id == *id {
                proof {
                    assert(member_ids(self.peers@)[i as int] == id@);
                    let c = member_pos(self.peers@, id@);
                    assert(self.peers@[c].node_id@ == id@);
                    if c != i {
                        if c < i {
                            assert(self.peers@[c].node_id@ != self.peers@[i as int].node_id@);
                        } else {
                            assert(self.peers@[i as int].node_id@ != self.peers@[c].node_id@);
                        }
                    }
                }
                return Some(i);
            }
            i = i + 1;
        }
        proof {
            if is_member(self.peers@, id@) {
                let j = choose|j: int|
                    0 <= j < member_ids(self.peers@).len() && member_ids(self.peers@)[j] == id@;
                assert(self.peers@[j].node_id@ == id@);
            }
        }
        None
    }

    /// Whether a node id belongs to an authenticated peer.
    pub fn has_peer(&self, id: &String) -> (found: bool)
        requires
            self.wf(),
        ensures
            found == is_member(self.peers_spec(), id@),
    {
        self.peer_position(id).is_some()
    }

    /// Registers an authenticated peer (replacing the name of a known node
    /// id) and returns the member snapshot to send it.
    pub fn add_peer(&mut self, node_id: String, name: String) -> (snapshot: Msg)
        requires
            old(self).wf(),
        ensures
            final(self).wf(),
            final(self).peers_spec() == upsert_member(
                old(self).peers_spec(),
                Member { node_id, name },
            ),
            snapshot matches Msg::Peers { members } && members@ == final(self).peers_spec(),
            final(self).mempool() == old(self).mempool(),
            final(self).tip_hash_spec() == old(self).tip_hash_spec(),
            final(self).tip_height_spec() == old(self).tip_height_spec(),
            final(self).finalized_height_spec() == old(self).finalized_height_spec(),
            final(self).blocks_spec() == old(self).blocks_spec(),
    {
        let ghost m = Member { node_id, name };
        let ghost pre = self.peers@;
        match self.peer_position(&node_id) {
            Some(k) => {
                self.peers.set(k, Member { node_id, name });
                assert(self.peers@ =~= pre.update(k as int, m));
                proof {
                    assert forall|i: int, j: int| 0 <= i < j < self.peers@.len() implies self.peers@[i].node_id@
                        != self.peers@[j].node_id@ by {
                        assert(pre[i].node_id@ != pre[j].node_id@);
                    }
                }
            },
            None => {
                self.peers.push(Member { node_id, name });
                assert(self.peers@ =~= pre.push(m));
                proof {
                    assert forall|i: int, j: int| 0 <= i < j < self.peers@.len() implies self.peers@[i].node_id@
                        != self.peers@[j].node_id@ by {
                        if j == pre.len() {
                            assert(member_ids(pre)[i] == pre[i].node_id@);
                        } else {
                            assert(pre[i].node_id@ != pre[j].node_id@);
                        }
                    }
                }
            },
        }
        let mut members: Vec<Member> = Vec::new();
        let mut i: usize = 0;
        while i < self.peers.len()
            invariant
                i <= self.peers@.len(),
                members@ == self.peers@.take(i as int),
            decreases self.peers@.len() - i,
        {
            members.push(self.peers[i].clone());
            i = i + 1;
            assert(members@ =~= self.peers@.take(i as int));
        }
        assert(self.peers@.take(i as int) =~= self.peers@);
        Msg::Peers { members }
    }

    /// Forgets a peer that disconnected.
    pub fn remove_peer(&mut self, node_id: &String)
        requires
            old(self).wf(),
        ensures
            final(self).wf(),
            final(self).peers_spec() == without_member(old(self).peers_spec(), node_id@),
            !is_member(final(self).peers_spec(), node_id@),
            final(self).mempool() == old(self).mempool(),
            final(self).tip_hash_spec() == old(self).tip_hash_spec(),
            final(self).tip_height_spec() == old(self).tip_height_spec(),
            final(self).finalized_height_spec() == old(self).finalized_height_spec(),
            final(self).blocks_spec() == old(self).blocks_spec(),
    {
        let ghost pre = self.peers@;
        match self.peer_position(node_id) {
            Some(k) => {
                self.peers.remove(k);
                assert(self.peers@ =~= pre.remove(k as int));
                proof {
                    let post = self.peers@;
                    assert forall|i: int, j: int| 0 <= i < j < post.len() implies post[i].node_id@
                        != post[j].node_id@ by {
                        let ii = if i < k { i } else { i + 1 };
                        let jj = if j < k { j } else { j + 1 };
                        assert(post[i] == pre[ii]);
                        assert(post[j] == pre[jj]);
                        assert(pre[ii].node_id@ != pre[jj].node_id@);
                    }
                    if is_member(post, node_id@) {
                        let j = choose|j: int|
                            0 <= j < member_ids(post).len() && member_ids(post)[j] == node_id@;
                        let jj = if j < k { j } else { j + 1 };
                        assert(post[j] == pre[jj]);
                        assert(pre[jj].node_id@ != pre[k as int].node_id@);
                    }
                }
            },
            None => {},
        }
    }

    /// The answer to a chat line from a peer: `Ack { "received: " + text }`
    /// to that peer, if it is registered.
    pub fn on_app(&self, from_peer: &String, text: &String) -> (reply: Option<Outbound>)
        requires
            self.wf(),
        ensures
            match reply {
                Some(o) => {
                    &&& is_member(self.peers_spec(), from_peer@)
                    &&& o.to@ == from_peer@
                    &&& o.msg matches Msg::Ack { text: t } && t@ == "received: "@ + text@
                },
                None => !is_member(self.peers_spec(), from_peer@),
            },
    {
        if self.has_peer(from_peer) {
            let mut reply = "received: ".to_owned();
            reply.append(text.as_str());
            Some(Outbound { to: from_peer.clone(), msg: Msg::Ack { text: reply } })
        } else {
            None
        }
    }

    /// `TxAnnounce { tx }` to every peer but `except`, in order.
    fn announce_tx(&self, tx: &SignedTx, except: Option<&String>) -> (out: Vec<Outbound>)
        ensures
            announces(
                out@,
                gossip_targets(
                    self.peers@,
                    match except {
                        Some(e) => Some(e@),
                        None => None,
                    },
                ),
                *tx,
            ),
    {
        let ghost ex = match except {
            Some(e) => Some(e@),
            None => None::<Seq<char>>,
        };
        let mut out: Vec<Outbound> = Vec::new();
        let mut i: usize = 0;
        while i < self.peers.len()
            invariant
                i <= self.peers@.len(),
                ex == match except {
                    Some(e) => Some(e@),
                    None => None::<Seq<char>>,
                },
                announces(out@, gossip_targets(self.peers@.take(i as int), ex), *tx),
            decreases self.peers@.len() - i,
        {
            assert(self.peers@.take(i + 1).drop_last() =~= self.peers@.take(i as int));
            let skip = match except {
                Some(e) => self.peers[i].node_id == *e,
                None => false,
            };
            if !skip {
                let ghost before = out@;
                out.push(
                    Outbound { to: self.peers[i].node_id.clone(), msg: Msg::TxAnnounce { tx: tx.clone() } },
                );
                proof {
                    let targets = gossip_targets(self.peers@.take(i + 1), ex);
                    assert(targets == gossip_targets(self.peers@.take(i as int), ex).push(
                        self.peers@[i as int].node_id@,
                    ));
                    assert forall|q: int| 0 <= q < out@.len() implies (#[trigger] out@[q]).to@
                        == targets[q] && out@[q].msg == Msg::TxAnnounce { tx: *tx } by {
                        if q < before.len() {
                            assert(out@[q] == before[q]);
                        }
                    }
                }
            }
            i = i + 1;
        }
        assert(self.peers@.take(i as int) =~= self.peers@);
        out
    }

    /// What a node does with a transaction a peer submitted, as of time
    /// `now`: it tries to admit it to the mempool; the peer, if registered,
    /// gets a `TxAck` (the id and no error on success, the id and the refusal's
    /// text on failure), and a newly admitted transaction is announced to every
    /// other peer.
    pub fn on_tx_submit_at(&mut self, from_peer: &String, tx: SignedTx, now: u64) -> (out: Vec<
        Outbound,
    >)
        requires
            old(self).wf(),
        ensures
            final(self).wf(),
            exists|res: Result<(String, bool, String), TxError>|
                {
                    &&& #[trigger] TxStore::insert_spec(
                        old(self).mempool(),
                        final(self).mempool(),
                        tx,
                        now,
                        res,
                    )
                    &&& submit_replies(out@, old(self).peers_spec(), from_peer@, tx, res)
                },
            final(self).peers_spec() == old(self).peers_spec(),
            final(self).tip_hash_spec() == old(self).tip_hash_spec(),
            final(self).tip_height_spec() == old(self).tip_height_spec(),
            final(self).finalized_height_spec() == old(self).finalized_height_spec(),
            final(self).blocks_spec() == old(self).blocks_spec(),
    {
        let res = self.txs.insert_if_new_at(tx.clone(), now);
        assert(TxStore::insert_spec(old(self).mempool(), self.mempool(), tx, now, res));
        let registered = self.has_peer(from_peer);
        let mut out: Vec<Outbound> = Vec::new();
        match &res {
            Ok(r) => {
                if registered {
                    out.push(
                        Outbound {
                            to: from_peer.clone(),
                            msg: Msg::TxAck { id: r.0.clone(), ok: true, err: None },
                        },
                    );
                }
                if r.1 {
                    let mut gossip = self.announce_tx(&tx, Some(from_peer));
                    out.append(&mut gossip);
                }
            },
            Err(e) => {
                if registered {
                    let id = tx_id(&tx);
                    out.push(
                        Outbound {
                            to: from_peer.clone(),
                            msg: Msg::TxAck { id, ok: false, err: Some(e.message()) },
                        },
                    );
                }
            },
        }
        assert(submit_replies(out@, old(self).peers_spec(), from_peer@, tx, res));
        out
    }

    /// What a node does with a transaction another peer announced: it tries
    /// to admit it, as of time `now`, and answers nothing.
    pub fn on_tx_announce_at(&mut self, tx: SignedTx, now: u64)
        requires
            old(self).wf(),
        ensures
            final(self).wf(),
            exists|res: Result<(String, bool, String), TxError>|
                #[trigger] TxStore::insert_spec(
                    old(self).mempool(),
                    final(self).mempool(),
                    tx,
                    now,
                    res,
                ),
            final(self).peers_spec() == old(self).peers_spec(),
            final(self).tip_hash_spec() == old(self).tip_hash_spec(),
            final(self).tip_height_spec() == old(self).tip_height_spec(),
            final(self).finalized_height_spec() == old(self).finalized_height_spec(),
            final(self).blocks_spec() == old(self).blocks_spec(),
    {
        let res = self.txs.insert_if_new_at(tx, now);
        assert(TxStore::insert_spec(old(self).mempool(), self.mempool(), tx, now, res));
    }

    /// Produces the block of a slot: it takes up to `MAX_TXS_PER_BLOCK` of the
    /// oldest mempool transactions, assembles and signs a block on top of the
    /// tip (see `is_assembled_block`), makes it the tip, keeps it among the
    /// recent blocks, advances finality (see `finality_after`), and sends it
    /// to every peer.
    pub fn produce_block_at(&mut self, slot: u64, epoch: u64, timestamp: u64, keys: &Keypair) -> (res: (
        Block,
        Vec<Outbound>,
    ))
        requires
            old(self).wf(),
            keys.wf(),
            old(self).tip_height_spec() < u64::MAX,
            epoch == slot / EPOCH_SLOTS,
            finality_fits(slot, epoch),
        ensures
            final(self).wf(),
            ({
                let pre = old(self).mempool().entries();
                let k = if MAX_TXS_PER_BLOCK < pre.len() {
                    MAX_TXS_PER_BLOCK as int
                } else {
                    pre.len() as int
                };
                &&& is_assembled_block(
                    res.0@,
                    txs_of(pre.take(k)),
                    (old(self).tip_height_spec() + 1) as u64,
                    slot,
                    epoch,
                    old(self).tip_hash_spec(),
                    timestamp,
                    *keys,
                )
                &&& final(self).mempool().entries() == pre.skip(k)
            }),
            final(self).mempool().seen_ids() == old(self).mempool().seen_ids(),
            final(self).mempool().nonce_floors() == old(self).mempool().nonce_floors(),
            final(self).mempool().capacity_spec() == old(self).mempool().capacity_spec(),
            final(self).mempool().min_fee_spec() == old(self).mempool().min_fee_spec(),
            res.0@.header.slot == slot && res.0@.header.epoch == res.0@.header.slot / EPOCH_SLOTS,
            final(self).tip_hash_spec() == res.0.hash@,
            final(self).tip_height_spec() == old(self).tip_height_spec() + 1,
            final(self).finalized_height_spec() == finality_after(
                old(self).finalized_height_spec(),
                slot,
                epoch,
            ),
            final(self).blocks_spec() == with_block(old(self).blocks_spec(), res.0@),
            final(self).peers_spec() == old(self).peers_spec(),
            res.1@.len() == old(self).peers_spec().len(),
            forall|i: int|
                0 <= i < res.1@.len() ==> (#[trigger] res.1@[i]).to@ == old(
                    self,
                ).peers_spec()[i].node_id@ && (res.1@[i].msg matches Msg::NewBlock { block }
                    && block@ == res.0@),
    {
        let ghost pre_blocks = self.blocks_spec();
        let txs = self.txs.drain_block(MAX_TXS_PER_BLOCK);
        let height = self.tip_height + 1;
        let parent = self.tip_hash.clone();
        let block = assemble_block(txs, height, slot, epoch, parent, timestamp, keys);
        self.tip_hash = block.hash.clone();
        self.tip_height = height;
        self.blocks.push_back(block.clone());
        assert(self.blocks_spec() =~= pre_blocks.push(block@));
        if self.blocks.len() > BLOCK_BUFFER {
            let _ = self.blocks.pop_front();
            assert(self.blocks_spec() =~= pre_blocks.push(block@).drop_first());
        }
        proof {
            let bs = self.blocks_spec();
            let ext = pre_blocks.push(block@);
            assert(is_chain_to(pre_blocks, old(self).tip_hash@, old(self).tip_height));
            assert(is_chain_to(ext, self.tip_hash@, self.tip_height)) by {
                assert forall|i: int| 0 <= i < ext.len() - 1 implies (#[trigger] ext[i + 1]).header.height
                    == ext[i].header.height + 1 && ext[i + 1].header.parent_hash@ == ext[i].hash by {
                    if i + 1 < pre_blocks.len() {
                        assert(ext[i + 1] == pre_blocks[i + 1]);
                        assert(ext[i] == pre_blocks[i]);
                    } else {
                        assert(ext[i] == pre_blocks.last());
                    }
                }
                assert forall|i: int| 0 <= i < ext.len() implies (#[trigger] ext[i]).hash
                    == header_hash_of(ext[i].header) by {
                    if i < pre_blocks.len() {
                        assert(ext[i] == pre_blocks[i]);
                    }
                }
            }
            if ext.len() > BLOCK_BUFFER {
                assert(bs == ext.drop_first());
                assert forall|i: int| 0 <= i < bs.len() - 1 implies (#[trigger] bs[i + 1]).header.height
                    == bs[i].header.height + 1 && bs[i + 1].header.parent_hash@ == bs[i].hash by {
                    assert(bs[i + 1] == ext[i + 2]);
                    assert(bs[i] == ext[i + 1]);
                }
                assert forall|i: int| 0 <= i < bs.len() implies (#[trigger] bs[i]).hash
                    == header_hash_of(bs[i].header) by {
                    assert(bs[i] == ext[i + 1]);
                }
            }
        }
        self.finalized_height = finalized_height_after(self.finalized_height, slot, epoch);
        let mut out: Vec<Outbound> = Vec::new();
        let mut i: usize = 0;
        while i < self.peers.len()
            invariant
                i <= self.peers@.len(),
                self.peers@ == old(self).peers@,
                out@.len() == i,
                forall|j: int|
                    0 <= j < i ==> (#[trigger] out@[j]).to@ == self.peers@[j].node_id@ && (
                    out@[j].msg matches Msg::NewBlock { block: b } && b@ == block@),
            decreases self.peers@.len() - i,
        {
            out.push(Outbound { to: self.peers[i].node_id.clone(), msg: Msg::NewBlock { block: block.clone() } });
            i = i + 1;
        }
        (block, out)
    }

    /// Answers `POST /api/tx` as of time `now`: the transaction is the one
    /// given, or else one the node signs over the message (chain 1, the given
    /// nonce, no recipient, value 0, fee 1, the message's base64 as data,
    /// valid 600 s); it is admitted to the mempool and, if new, announced to
    /// every peer. Without either, the answer is an error.
    pub fn submit_http_at(
        &mut self,
        tx: Option<SignedTx>,
        message: Option<String>,
        keys: &Keypair,
        nonce: u64,
        now: u64,
    ) -> (res: (SubmitTxResp, Vec<Outbound>))
        requires
            old(self).wf(),
            keys.wf(),
            now + 30 <= u64::MAX,
            tx is None && message is Some ==> now + 600 <= u64::MAX,
        ensures
            final(self).wf(),
            res.0.time_to_next_slot_ms == slot_hint_ms(now),
            match (tx, message) {
                (None, None) => {
                    &&& res.0.id@ == Seq::<char>::empty()
                    &&& !res.0.ok
                    &&& opt_view(res.0.err) == Some("provide `tx` or `message`"@)
                    &&& !res.0.inserted
                    &&& res.0.mempool_size == 0
                    &&& res.1@.len() == 0
                    &&& final(self).mempool() == old(self).mempool()
                },
                _ => exists|sub: SignedTx, r: Result<(String, bool, String), TxError>|
                    {
                        &&& match tx {
                            Some(t) => sub == t,
                            None => is_signed_tx_of(
                                sub,
                                *keys,
                                1,
                                nonce,
                                None,
                                0,
                                1,
                                base64_encoding(vstd::utf8::encode_utf8(message.unwrap()@)),
                                600,
                                now,
                            ),
                        }
                        &&& #[trigger] TxStore::insert_spec(
                            old(self).mempool(),
                            final(self).mempool(),
                            sub,
                            now,
                            r,
                        )
                        &&& http_submit_answer(res.0, res.1@, old(self).peers_spec(), sub, r)
                        &&& res.0.mempool_size == final(self).mempool().entries().len()
                    },
            },
            final(self).peers_spec() == old(self).peers_spec(),
            final(self).tip_hash_spec() == old(self).tip_hash_spec(),
            final(self).tip_height_spec() == old(self).tip_height_spec(),
            final(self).finalized_height_spec() == old(self).finalized_height_spec(),
            final(self).blocks_spec() == old(self).blocks_spec(),
    {
        let clock = SlotClock::new_aligned_at(now);
        let next = clock.next_slot_start_from(now).unwrap();
        let hint = secs_until(next, now) * 1000;
        let maybe_tx = match tx {
            Some(t) => Some(t),
            None => match message {
                Some(m) => {
                    let data = base64_encode(m.as_str().as_bytes());
                    Some(sign_tx_at(keys, 1, nonce, None, 0, 1, data, 600, now))
                },
                None => None,
            },
        };
        let sub = match maybe_tx {
            None => {
                let resp = SubmitTxResp {
                    id: String::new(),
                    ok: false,
                    err: Some("provide `tx` or `message`".to_owned()),
                    inserted: false,
                    mempool_size: 0,
                    time_to_next_slot_ms: hint,
                };
                return (resp, Vec::new());
            },
            Some(t) => t,
        };
        let id = tx_id(&sub);
        let r = self.txs.insert_if_new_at(sub.clone(), now);
        assert(TxStore::insert_spec(old(self).mempool(), self.mempool(), sub, now, r));
        let mempool_size = self.txs.len();
        let (inserted, err, out) = match &r {
            Ok(v) => {
                let out = if v.1 {
                    self.announce_tx(&sub, None)
                } else {
                    Vec::new()
                };
                (v.1, None, out)
            },
            Err(e) => (false, Some(e.message()), Vec::new()),
        };
        let ok = err.is_none();
        let resp = SubmitTxResp { id, ok, err, inserted, mempool_size, time_to_next_slot_ms: hint };
        assert(http_submit_answer(resp, out@, old(self).peers_spec(), sub, r));
        assert(match tx {
            Some(t) => sub == t,
            None => is_signed_tx_of(
                sub,
                *keys,
                1,
                nonce,
                None,
                0,
                1,
                base64_encoding(vstd::utf8::encode_utf8(message.unwrap()@)),
                600,
                now,
            ),
        });
        (resp, out)
    }

    /// The mempool as `GET /api/mempool` lists it, oldest first.
    pub fn mempool_entries(&self) -> (list: Vec<MempoolEntry>)
        requires
            self.wf(),
        ensures
            list@.len() == self.mempool().entries().len(),
            forall|i: int|
                0 <= i < list@.len() ==> is_mempool_entry(
                    #[trigger] list@[i],
                    self.mempool().entries()[i],
                ),
    {
        let items = self.txs.listing();
        let mut list: Vec<MempoolEntry> = Vec::new();
        let mut i: usize = 0;
        while i < items.len()
            invariant
                i <= items@.len(),
                crate::mempool::entry_views(items@) == self.mempool().entries(),
                list@.len() == i,
                forall|j: int|
                    0 <= j < i ==> is_mempool_entry(
                        #[trigger] list@[j],
                        self.mempool().entries()[j],
                    ),
            decreases items@.len() - i,
        {
            let tx = &items[i].1;
            assert(self.mempool().entries()[i as int] == (items@[i as int].0@, items@[i as int].1));
            list.push(
                MempoolEntry {
                    id: items[i].0.clone(),
                    from: tx.from_pubkey_b64.clone(),
                    nonce: tx.nonce,
                    value: tx.value,
                    max_fee: tx.max_fee,
                    timestamp: tx.timestamp,
                },
            );
            i = i + 1;
        }
        list
    }

    /// The recent blocks as `GET /api/blocks` lists them, newest first.
    pub fn block_list(&self) -> (list: Vec<BlockListEntry>)
        ensures
            list@.len() == self.blocks_spec().len(),
            forall|i: int|
                0 <= i < list@.len() ==> is_block_list_entry(
                    #[trigger] list@[i],
                    self.blocks_spec()[self.blocks_spec().len() - 1 - i],
                ),
    {
        let mut list: Vec<BlockListEntry> = Vec::new();
        let n = self.blocks.len();
        let mut i: usize = 0;
        while i < n
            invariant
                n == self.blocks@.len(),
                i <= n,
                list@.len() == i,
                forall|j: int|
                    0 <= j < i ==> is_block_list_entry(
                        #[trigger] list@[j],
                        self.blocks_spec()[n - 1 - j],
                    ),
            decreases n - i,
        {
            let b = &self.blocks[n - 1 - i];
            assert(self.blocks_spec()[n - 1 - i] == b@);
            list.push(
                BlockListEntry {
                    height: b.header.height,
                    hash: b.hash.clone(),
                    slot: b.header.slot,
                    epoch: b.header.epoch,
                    txs: b.txs.len(),
                    timestamp: b.header.timestamp,
                },
            );
            i = i + 1;
        }
        list
    }

    /// The recent block of a height, as `GET /api/blocks/height/:h` finds it
    /// (the oldest such, scanning oldest first).
    pub fn block_at_height(&self, height: u64) -> (found: Option<Block>)
        ensures
            match found {
                Some(b) => exists|k: int|
                    0 <= k < self.blocks_spec().len() && self.blocks_spec()[k] == b@
                        && b@.header.height == height && forall|j: int|
                        0 <= j < k ==> (#[trigger] self.blocks_spec()[j]).header.height != height,
                None => forall|j: int|
                    0 <= j < self.blocks_spec().len() ==> (#[trigger] self.blocks_spec()[j]).header.height
                        != height,
            },
    {
        let mut i: usize = 0;
        while i < self.blocks.len()
            invariant
                i <= self.blocks@.len(),
                forall|j: int| 0 <= j < i ==> (#[trigger] self.blocks_spec()[j]).header.height != height,
            decreases self.blocks@.len() - i,
        {
            assert(self.blocks_spec()[i as int] == self.blocks@[i as int]@);
            if self.blocks[i].header.height == height {
                let b = self.blocks[i].clone();
                return Some(b);
            }
            i = i + 1;
        }
        None
    }

    /// The node's status as `GET /api/debug` reports it at time `now`, for a
    /// clock aligned to `now`.
    pub fn debug_state_at(&self, now: u64) -> (st: DebugState)
        requires
            now + 30 <= u64::MAX,
        ensures
            st.tip_height == self.tip_height_spec(),
            st.finalized_height == self.finalized_height_spec(),
            st.mempool_size == self.mempool().entries().len(),
            st.slot == slot_at((now - now % 30) as u64, now),
            st.epoch == st.slot / 32,
            st.next_slot_in_ms == slot_hint_ms(now),
    {
        let clock = SlotClock::new_aligned_at(now);
        let next = clock.next_slot_start_from(now).unwrap();
        let slot = clock.slot_of(now);
        let epoch = clock.epoch_of_slot(slot);
        DebugState {
            tip_height: self.tip_height,
            finalized_height: self.finalized_height,
            mempool_size: self.txs.len(),
            slot,
            epoch,
            next_slot_in_ms: secs_until(next, now) * 1000,
        }
    }

    /// Where, scanning the recent blocks newest first and each block's
    /// receipts in order, the first receipt for `id` stands.
    fn find_receipt(&self, id: &String) -> (hit: Option<(usize, usize)>)
        ensures
            match hit {
                Some((k, i)) => receipt_hit(self.blocks_spec(), id@, k as int, i as int),
                None => forall|k: int|
                    0 <= k < self.blocks_spec().len() ==> !has_receipt(
                        #[trigger] self.blocks_spec()[k],
                        id@,
                    ),
            },
    {
        let n = self.blocks.len();
        let mut q: usize = 0;
        while q < n
            invariant
                n == self.blocks@.len(),
                q <= n,
                forall|k: int|
                    n - q <= k < n ==> !has_receipt(#[trigger] self.blocks_spec()[k], id@),
            decreases n - q,
        {
            let k = n - 1 - q;
            let b = &self.blocks[k];
            assert(self.blocks_spec()[k as int] == b@);
            let mut i: usize = 0;
            while i < b.receipts.len()
                invariant
                    n == self.blocks@.len(),
                    q < n,
                    k == n - 1 - q,
                    self.blocks_spec()[k as int] == b@,
                    forall|kk: int|
                        n - q <= kk < n ==> !has_receipt(#[trigger] self.blocks_spec()[kk], id@),
                    i <= b.receipts@.len(),
                    forall|j: int| 0 <= j < i ==> (#[trigger] b.receipts@[j]).tx_id@ != id@,
                decreases b.receipts@.len() - i,
            {
                if b.receipts[i].tx_id == *id {
                    return Some((k, i));
                }
                i = i + 1;
            }
            assert(!has_receipt(self.blocks_spec()[k as int], id@));
            q = q + 1;
        }
        None
    }

    /// What `GET /api/tx/:id` reports: the transaction in the mempool, or else
    /// the newest recent block with a receipt for it (with that receipt, the
    /// transaction at the receipt's position or else the first one with that
    /// id, and whether the block is final), or else nothing.
    pub fn lookup_tx(&self, id: &String) -> (found: TxLookup)
        requires
            self.wf(),
        ensures
            if self.mempool().ids().contains(id@) {
                &&& found.found
                &&& found.location@ == "mempool"@
                &&& found.tx matches Some(t) && exists|k: int|
                    0 <= k < self.mempool().entries().len() && self.mempool().entries()[k] == (
                    id@,
                    t,
                )
                &&& found.block is None
                &&& found.receipt is None
            } else if exists|k: int|
                0 <= k < self.blocks_spec().len() && has_receipt(
                    #[trigger] self.blocks_spec()[k],
                    id@,
                ) {
                exists|k: int, i: int|
                    {
                        &&& #[trigger] receipt_hit(self.blocks_spec(), id@, k, i)
                        &&& found.found
                        &&& found.location@ == "block"@
                        &&& found.receipt == Some(self.blocks_spec()[k].receipts[i])
                        &&& found.block matches Some(r) && is_block_ref(
                            r,
                            self.blocks_spec()[k],
                            self.finalized_height_spec(),
                        )
                        &&& tx_at_receipt(found.tx, self.blocks_spec()[k].txs, id@, i)
                    }
            } else {
                &&& !found.found
                &&& found.location@ == "none"@
                &&& found.tx is None
                &&& found.block is None
                &&& found.receipt is None
            },
    {
        match self.txs.get(id) {
            Some(tx) => {
                proof {
                    let k = choose|k: int|
                        0 <= k < self.mempool().entries().len() && self.mempool().entries()[k] == (
                        id@,
                        tx,
                    );
                    assert(self.mempool().ids()[k] == id@);
                }
                return TxLookup {
                    found: true,
                    location: "mempool".to_owned(),
                    tx: Some(tx),
                    block: None,
                    receipt: None,
                };
            },
            None => {},
        }
        match self.find_receipt(id) {
            Some((k, i)) => {
                let b = &self.blocks[k];
                assert(self.blocks_spec()[k as int] == b@);
                let receipt = b.receipts[i].clone();
                let finalized = b.header.height <= self.finalized_height;
                let bref = BlockRef {
                    height: b.header.height,
                    hash: b.hash.clone(),
                    slot: b.header.slot,
                    epoch: b.header.epoch,
                    timestamp: b.header.timestamp,
                    finalized,
                };
                let tx = if i < b.txs.len() {
                    Some(b.txs[i].clone())
                } else {
                    match find_tx(&b.txs, id) {
                        Some(p) => Some(b.txs[p].clone()),
                        None => None,
                    }
                };
                assert(has_receipt(self.blocks_spec()[k as int], id@));
                TxLookup {
                    found: true,
                    location: "block".to_owned(),
                    tx,
                    block: Some(bref),
                    receipt: Some(receipt),
                }
            },
            None => TxLookup {
                found: false,
                location: "none".to_owned(),
                tx: None,
                block: None,
                receipt: None,
            },
        }
    }

    /// What `GET /api/receipt/:id` reports: the first receipt for `id` in the
    /// newest recent block that has one.
    pub fn receipt_by_id(&self, id: &String) -> (found: Option<TxReceipt>)
        ensures
            match found {
                Some(r) => exists|k: int, i: int|
                    #[trigger] receipt_hit(self.blocks_spec(), id@, k, i) && r
                        == self.blocks_spec()[k].receipts[i],
                None => forall|k: int|
                    0 <= k < self.blocks_spec().len() ==> !has_receipt(
                        #[trigger] self.blocks_spec()[k],
                        id@,
                    ),
            },
    {
        match self.find_receipt(id) {
            Some((k, i)) => {
                assert(self.blocks_spec()[k as int] == self.blocks@[k as int]@);
                Some(self.blocks[k].receipts[i].clone())
            },
            None => None,
        }
    }
}

/// Recent blocks form a chain ending at the tip: each block's hash is its
/// header's hash, each block is the child (height + 1, parent hash) of the
/// one before, and the last is the tip.
pub open spec fn is_chain_to(blocks: Seq<BlockView>, tip_hash: Seq<char>, tip_height: u64) -> bool {
    &&& forall|i: int| 0 <= i < blocks.len() ==> (#[trigger] blocks[i]).hash == header_hash_of(
        blocks[i].header,
    )
    &&& forall|i: int|
        0 <= i < blocks.len() - 1 ==> (#[trigger] blocks[i + 1]).header.height == blocks[i].header.height
            + 1 && blocks[i + 1].header.parent_hash@ == blocks[i].hash
    &&& blocks.len() > 0 ==> blocks.last().hash == tip_hash && blocks.last().header.height
        == tip_height
}

/// The recent blocks after appending one: the oldest is dropped beyond
/// `BLOCK_BUFFER`.
pub open spec fn with_block(blocks: Seq<BlockView>, b: BlockView) -> Seq<BlockView> {
    if blocks.len() + 1 > BLOCK_BUFFER {
        blocks.push(b).drop_first()
    } else {
        blocks.push(b)
    }
}

/// The wait, in milliseconds, until the next slot of a clock aligned to
/// `now`.
pub open spec fn slot_hint_ms(now: u64) -> int {
    (next_slot_start_at((now - now % 30) as u64, now) - now) * 1000
}

/// `resp` and `out` are the answer to an HTTP submission of `tx` whose
/// admission came out as `r`: the id, success with whether it was new, or the
/// refusal's text; a new transaction is announced to every peer.
pub open spec fn http_submit_answer(
    resp: SubmitTxResp,
    out: Seq<Outbound>,
    peers: Seq<Member>,
    tx: SignedTx,
    r: Result<(String, bool, String), TxError>,
) -> bool {
    &&& resp.id@ == tx_id_of(tx)
    &&& match r {
        Ok(v) => {
            &&& resp.ok
            &&& resp.err is None
            &&& resp.inserted == v.1
            &&& if v.1 {
                announces(out, gossip_targets(peers, None), tx)
            } else {
                out.len() == 0
            }
        },
        Err(e) => {
            &&& !resp.ok
            &&& opt_view(resp.err) == Some(tx_error_text(e@))
            &&& !resp.inserted
            &&& out.len() == 0
        },
    }
}

/// `e` lists the mempool entry `entry`.
pub open spec fn is_mempool_entry(e: MempoolEntry, entry: (Seq<char>, SignedTx)) -> bool {
    &&& e.id@ == entry.0
    &&& e.from@ == entry.1.from_pubkey_b64@
    &&& e.nonce == entry.1.nonce
    &&& e.value == entry.1.value
    &&& e.max_fee == entry.1.max_fee
    &&& e.timestamp == entry.1.timestamp
}

/// `e` lists block `b`.
pub open spec fn is_block_list_entry(e: BlockListEntry, b: BlockView) -> bool {
    &&& e.height == b.header.height
    &&& e.hash@ == b.hash
    &&& e.slot == b.header.slot
    &&& e.epoch == b.header.epoch
    &&& e.txs == b.txs.len()
    &&& e.timestamp == b.header.timestamp
}

/// `r` refers to block `b`, final when its height is at most `finalized`.
pub open spec fn is_block_ref(r: BlockRef, b: BlockView, finalized: u64) -> bool {
    &&& r.height == b.header.height
    &&& r.hash@ == b.hash
    &&& r.slot == b.header.slot
    &&& r.epoch == b.header.epoch
    &&& r.timestamp == b.header.timestamp
    &&& r.finalized == (b.header.height <= finalized)
}

/// Whether a block holds a receipt for `id`.
pub open spec fn has_receipt(b: BlockView, id: Seq<char>) -> bool {
    exists|i: int| 0 <= i < b.receipts.len() && (#[trigger] b.receipts[i]).tx_id@ == id
}

/// Scanning blocks newest first and receipts in order, the first receipt for
/// `id` is receipt `i` of block `k`.
pub open spec fn receipt_hit(blocks: Seq<BlockView>, id: Seq<char>, k: int, i: int) -> bool {
    &&& 0 <= k < blocks.len()
    &&& 0 <= i < blocks[k].receipts.len()
    &&& blocks[k].receipts[i].tx_id@ == id
    &&& forall|j: int| 0 <= j < i ==> (#[trigger] blocks[k].receipts[j]).tx_id@ != id
    &&& forall|q: int| k < q < blocks.len() ==> !has_receipt(#[trigger] blocks[q], id)
}

/// The transaction reported with receipt `i`: the one at the same position,
/// or else the first with that id, or none.
pub open spec fn tx_at_receipt(found: Option<SignedTx>, txs: Seq<SignedTx>, id: Seq<char>, i: int) -> bool {
    if i < txs.len() {
        found == Some(txs[i])
    } else {
        match found {
            Some(t) => exists|p: int|
                0 <= p < txs.len() && txs[p] == t && tx_id_of(t) == id && forall|j: int|
                    0 <= j < p ==> tx_id_of(#[trigger] txs[j]) != id,
            None => forall|j: int| 0 <= j < txs.len() ==> tx_id_of(#[trigger] txs[j]) != id,
        }
    }
}

/// The position of the first transaction with id `id`.
pub fn find_tx(txs: &Vec<SignedTx>, id: &String) -> (pos: Option<usize>)
    ensures
        match pos {
            Some(p) => p < txs@.len() && tx_id_of(txs@[p as int]) == id@ && forall|j: int|
                0 <= j < p ==> tx_id_of(#[trigger] txs@[j]) != id@,
            None => forall|j: int| 0 <= j < txs@.len() ==> tx_id_of(#[trigger] txs@[j]) != id@,
        },
{
    let mut i: usize = 0;
    while i < txs.len()
        invariant
            i <= txs@.len(),
            forall|j: int| 0 <= j < i ==> tx_id_of(#[trigger] txs@[j]) != id@,
        decreases txs@.len() - i,
    {
        if tx_id(&txs[i]) == *id {
            return Some(i);
        }
        i = i + 1;
    }
    None
}

/// The answer to an HTTP transaction submission.
#[derive(Debug)]
pub struct SubmitTxResp {
    pub id: String,
    pub ok: bool,
    pub err: Option<String>,
    pub inserted: bool,
    pub mempool_size: usize,
    pub time_to_next_slot_ms: u64,
}

/// A mempool entry as the HTTP interface lists it.
#[derive(Debug)]
pub struct MempoolEntry {
    pub id: String,
    pub from: String,
    pub nonce: u64,
    pub value: u128,
    pub max_fee: u64,
    pub timestamp: u64,
}

/// A recent block as the HTTP interface lists it.
#[derive(Debug)]
pub struct BlockListEntry {
    pub height: u64,
    pub hash: String,
    pub slot: u64,
    pub epoch: u64,
    pub txs: usize,
    pub timestamp: u64,
}

/// The node's status as the HTTP interface reports it.
#[derive(Debug)]
pub struct DebugState {
    pub tip_height: u64,
    pub finalized_height: u64,
    pub mempool_size: usize,
    pub slot: u64,
    pub epoch: u64,
    pub next_slot_in_ms: u64,
}

/// A reference to the block that holds a transaction.
#[derive(Debug)]
pub struct BlockRef {
    pub height: u64,
    pub hash: String,
    pub slot: u64,
    pub epoch: u64,
    pub timestamp: u64,
    pub finalized: bool,
}

/// Where a transaction was found.
#[derive(Debug)]
pub struct TxLookup {
    pub found: bool,
    pub location: String,
    pub tx: Option<SignedTx>,
    pub block: Option<BlockRef>,
    pub receipt: Option<TxReceipt>,
}

/// The most transactions a block carries.
pub const MAX_TXS_PER_BLOCK: usize = 100;

/// The replies to a peer's submission of `tx` whose admission came out as
/// `res`: first a `TxAck` to the sender if it is a member (with the id on
/// success; with the id and the refusal's text on failure), then, if the
/// transaction was new, `TxAnnounce` to every other member in order.
pub open spec fn submit_replies(
    out: Seq<Outbound>,
    peers: Seq<Member>,
    sender: Seq<char>,
    tx: SignedTx,
    res: Result<(String, bool, String), TxError>,
) -> bool {
    let acked: int = if is_member(peers, sender) {
        1
    } else {
        0
    };
    &&& acked == 1 ==> out.len() >= 1 && out[0].to@ == sender && (match res {
        Ok(r) => is_tx_ack(out[0].msg, r.0@, true, None),
        Err(e) => is_tx_ack(out[0].msg, tx_id_of(tx), false, Some(tx_error_text(e@))),
    })
    &&& if (res matches Ok(r) && r.1) {
        announces(out.skip(acked), gossip_targets(peers, Some(sender)), tx)
    } else {
        out.len() == acked
    }
}

} // verus!

verus! {

/// A node's recent blocks always form a chain ending at its tip, and there
/// are at most `BLOCK_BUFFER` of them.
pub proof fn lemma_recent_blocks_form_a_chain(node: NodeState)
    requires
        node.wf(),
    ensures
        is_chain_to(node.blocks_spec(), node.tip_hash_spec(), node.tip_height_spec()),
        node.blocks_spec().len() <= BLOCK_BUFFER,
{
}

/// Where blocks come one per slot from slot 1 (each block's height is its
/// slot and its epoch is its slot's epoch), the finality that a block at
/// the first slot of an epoch `e >= 2` sets is the height of the last block
/// of epoch `e - 2`: that block lies in epoch `e - 2`, and every block after
/// it in a later epoch.
pub proof fn lemma_finality_is_last_block_two_epochs_back(chain: Seq<BlockView>, current: u64)
    requires
        chain.len() > 0,
        forall|i: int|
            0 <= i < chain.len() ==> (#[trigger] chain[i]).header.height == i + 1
                && chain[i].header.slot == chain[i].header.height && chain[i].header.epoch
                == chain[i].header.slot / EPOCH_SLOTS,
    ensures
        ({
            let b = chain.last();
            let f = finality_after(current, b.header.slot, b.header.epoch);
            b.header.slot % EPOCH_SLOTS == 0 && b.header.epoch >= 2 ==> {
                &&& 0 <= f - 1 < chain.len() - 1
                &&& chain[f - 1].header.height == f
                &&& chain[f - 1].header.epoch == b.header.epoch - 2
                &&& forall|j: int|
                    f - 1 < j < chain.len() ==> (#[trigger] chain[j]).header.epoch
                        > b.header.epoch - 2
            }
        }),
{
    let b = chain.last();
    let n = chain.len() as int;
    assert(chain[n - 1] == b);
    if b.header.slot % EPOCH_SLOTS == 0 && b.header.epoch >= 2 {
        let f = finality_after(current, b.header.slot, b.header.epoch);
        assert(b.header.slot == n);
        assert(f == n - 33);
        assert(chain[f - 1].header.height == f);
        assert forall|j: int| f - 1 < j < chain.len() implies (#[trigger] chain[j]).header.epoch
            > b.header.epoch - 2 by {
            assert(chain[j].header.slot == j + 1);
        }
    }
}

} // verus!
