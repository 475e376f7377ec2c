//! The states that the instances signal to each other.

use vstd::prelude::*;

verus! {

/// How many seconds pass between two looks at the scores of the peers.
pub const SCORE_INTERVAL: u64 = 1;

/// The state that is signalled when the transport runs and the peers are dialed.
pub const BARRIER_TOPOLOGY_READY: &'static str = "Started libp2p, dialed outboud peers";

/// The state that is signalled when the warm-up is over.
pub const BARRIER_WARMUP: &'static str = "Warmup";

/// The state that is signalled at the end.
pub const BARRIER_DONE: &'static str = "Done";

} // verus!
