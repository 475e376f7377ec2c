//! A simulation of peer scoring under a censoring attack.

pub mod attacker;
pub mod beacon_laws;
pub mod beacon_node;
pub mod fragment;
pub mod fragment_laws;
pub mod param;
pub mod param_laws;
pub mod received;
pub mod rpc;
pub mod topic;
pub mod utils;
pub mod wire_laws;

use crate::text::same_text;
use vstd::prelude::*;

verus! {

/// What the instances of a group do.
#[derive(Clone, Copy, Debug, PartialEq, Eq, Structural)]
pub enum Group {
    BeaconNode,
    Attacker,
}

impl Group {
    /// The group of that name. `None` is no known group.
    pub fn from_text(test_group_id: &str) -> (group: Option<Group>)
        ensures
            group == if test_group_id@ == "beacon_node"@ {
                Some(Group::BeaconNode)
            } else if test_group_id@ == "attacker"@ {
                Some(Group::Attacker)
            } else {
                None
            },
    {
        if same_text(test_group_id, "beacon_node") {
            Some(Group::BeaconNode)
        } else if same_text(test_group_id, "attacker") {
            Some(Group::Attacker)
        } else {
            None
        }
    }
}

} // verus!
