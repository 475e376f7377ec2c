//! A simulation of the choking extension of gossipsub.

pub mod honest;
pub mod node_run;
pub mod utils;

use vstd::prelude::*;

verus! {

/// How to reach a node.
#[derive(Debug)]
pub struct InstanceInfo {
    pub peer_id: String,
    pub multiaddr: String,
}

} // verus!
