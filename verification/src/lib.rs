//! A small proof-of-authority ledger node: signed transactions, a bounded
//! mempool, slot/epoch timekeeping, Merkle roots over transaction ids,
//! signed block headers, and the decisions of the peer-to-peer node and its
//! HTTP interface.

pub mod bytes;
pub mod chain;
pub mod cli;
pub mod client;
pub mod clock;
pub mod crypto;
pub mod handshake;
pub mod mempool;
pub mod node;
pub mod primitives;
pub mod protocol;
pub mod tx;
