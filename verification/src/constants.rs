//! Timing and sizing of a node.

use vstd::prelude::*;

verus! {

/// Seconds between two heartbeats, and between two scans for silent nodes.
pub const HEARTBEAT_SECS: u64 = 1;

/// Seconds of silence after which a node counts as dead.
pub const THRESHOLD_SECS: i64 = 3;

/// Seconds between two checks of this node's share of the jobs.
pub const BALANCE_SECS: u64 = 10;

/// Seconds to wait after reporting a silent node before sharing out its jobs.
pub const REDISTRIBUTION_DELAY_SECS: u64 = 5;

/// Bytes of one received datagram that are read.
pub const BUFFER_SIZE: usize = 1024;

/// Messages that may wait in a node's queues.
pub const MAX_CONNECTIONS: usize = 100;

} // verus!
