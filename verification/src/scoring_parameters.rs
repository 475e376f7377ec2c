//! A simulation to find score parameters.

pub mod honest;
pub mod laws;
pub mod utils;

use vstd::prelude::*;

verus! {

/// How to reach a node.
#[derive(Debug)]
pub struct InstanceInfo {
    pub peer_id: String,
    pub multiaddr: String,
}

} // verus!
