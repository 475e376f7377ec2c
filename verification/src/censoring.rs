//! A simulation in which attackers censor messages.

pub mod utils;

use vstd::prelude::*;

verus! {

/// Who records something.
#[derive(Debug)]
pub struct InstanceInfo {
    pub peer_id: String,
    pub name: String,
}

} // verus!
