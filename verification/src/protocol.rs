//! The messages peers exchange over the wire.

use vstd::prelude::*;
use crate::chain::Block;
use crate::tx::SignedTx;

verus! {

/// A member of the network: its node id and display name.
#[derive(Debug)]
pub struct Member {
    pub node_id: String,
    pub name: String,
}

impl Clone for Member {
    fn clone(&self) -> (res: Self)
        ensures
            res == *self,
    {
        Member { node_id: self.node_id.clone(), name: self.name.clone() }
    }
}

/// A protocol message.
#[derive(Debug)]
pub enum Msg {
    /// The server's challenge nonce (base64).
    Challenge { nonce_b64: String },
    /// A node's proof of identity: its signature (base64) on the challenge.
    Identity { name: String, node_id: String, pubkey_b64: String, sig_b64: String },
    /// The server's greeting once both sides are authenticated.
    Welcome { text: String },
    /// The current members, sent to a newly joined peer.
    Peers { members: Vec<Member> },
    MemberUp { member: Member },
    MemberDown { node_id: String },
    /// A chat line and its acknowledgement.
    App { from: String, text: String },
    Ack { text: String },
    /// A transaction submitted by a peer, the answer, and its gossip.
    TxSubmit { tx: SignedTx },
    TxAck { id: String, ok: bool, err: Option<String> },
    TxAnnounce { tx: SignedTx },
    /// A freshly produced block.
    NewBlock { block: Block },
}

} // verus!
