//! Bookkeeping for the message bus gateway.  The bus itself is wire-level
//! transport and lives outside the verified core; only its statistics
//! record is kept here.

use vstd::prelude::*;

verus! {

/// Counters a bus keeps about its traffic.
#[derive(Debug, Clone, Copy, PartialEq, Eq, Structural)]
pub struct NetworkStats {
    pub connected_peers: usize,
    pub messages_sent: u64,
    pub messages_received: u64,
    pub bytes_sent: u64,
    pub bytes_received: u64,
}

impl NetworkStats {
    /// Fresh counters: one connected peer, the node itself, and no
    /// traffic yet.
    pub fn new() -> (r: Self)
        ensures
            r == (NetworkStats {
                connected_peers: 1,
                messages_sent: 0,
                messages_received: 0,
                bytes_sent: 0,
                bytes_received: 0,
            }),
    {
        NetworkStats {
            connected_peers: 1,
            messages_sent: 0,
            messages_received: 0,
            bytes_sent: 0,
            bytes_received: 0,
        }
    }
}

} // verus!
