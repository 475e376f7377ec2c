//! A simulation of the gossip of an Ethereum consensus network.

pub mod laws;
pub mod network;
pub mod node_run;
pub mod utils;

use vstd::prelude::*;

verus! {

/// How to reach a node.
#[derive(Debug)]
pub struct InstanceInfo {
    pub peer_id: String,
    pub multiaddr: String,
}

/// A message of the consensus protocol that a validator sends.
#[derive(Clone, Copy, Debug)]
pub enum Message {
    BeaconBlock { proposer: u64, slot: u64 },
    AggregateAndProofAttestation { aggregator: u64, subnet: u64, slot: u64 },
    Attestation { attester: u64, subnet: u64, slot: u64 },
    SignedContributionAndProof { validator: u64, subnet: u64, slot: u64 },
    SyncCommitteeMessage { validator: u64, subnet: u64, slot: u64 },
}

} // verus!
