//! The node's command line, as plain values.

use vstd::prelude::*;

verus! {

/// The parsed command line.
#[derive(Debug)]
pub struct Args {
    pub cmd: Cmd,
}

/// What the node is asked to do.
#[derive(Debug)]
pub enum Cmd {
    /// Listen for peers on a port (default 7000) under a name ("auto" by
    /// default: derived from the node id).
    Listen { port: u16, name: String },
    /// Connect to a listening node at `addr:port`.
    Connect { addr: String, port: u16, name: String },
}

} // verus!
