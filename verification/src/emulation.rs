//! A simulation that emulates a gossip network with publishers, lurkers and attackers.

pub mod attacker;
pub mod honest;
pub mod laws;
pub mod utils;

use crate::text::{decimal, decimal_text, same_text};
use vstd::prelude::*;

verus! {

/// What an instance does.
#[derive(Clone, Copy, Debug, PartialEq, Eq, Structural)]
pub enum Role {
    /// Publishes and forwards messages.
    Publisher,
    /// Forwards messages.
    Lurker,
    /// Does not forward messages.
    Attacker,
}

impl Role {
    /// The name of the role.
    pub open spec fn title(self) -> Seq<char> {
        match self {
            Role::Publisher => "Publisher"@,
            Role::Lurker => "Lurker"@,
            Role::Attacker => "Attacker"@,
        }
    }

    /// The name of the role.
    pub fn name(&self) -> (name: &'static str)
        ensures
            name@ == self.title(),
    {
        match self {
            Role::Publisher => "Publisher",
            Role::Lurker => "Lurker",
            Role::Attacker => "Attacker",
        }
    }

    /// Whether the instance follows the protocol.
    pub fn is_honest(&self) -> (honest: bool)
        ensures
            honest == self.honest(),
    {
        match self {
            Role::Publisher | Role::Lurker => true,
            Role::Attacker => false,
        }
    }

    /// Whether the instance follows the protocol.
    pub open spec fn honest(self) -> bool {
        !(self is Attacker)
    }

    /// Whether the instance publishes messages.
    pub fn is_publisher(&self) -> (publisher: bool)
        ensures
            publisher == (self is Publisher),
    {
        match self {
            Role::Publisher => true,
            _ => false,
        }
    }

    /// The role of the instances of a group. `None` is no known group.
    pub fn from_group(test_group_id: &str) -> (role: Option<Role>)
        ensures
            role == if test_group_id@ == "publishers"@ {
                Some(Role::Publisher)
            } else if test_group_id@ == "lurkers"@ {
                Some(Role::Lurker)
            } else if test_group_id@ == "attackers"@ {
                Some(Role::Attacker)
            } else {
                None
            },
    {
        if same_text(test_group_id, "publishers") {
            Some(Role::Publisher)
        } else if same_text(test_group_id, "lurkers") {
            Some(Role::Lurker)
        } else if same_text(test_group_id, "attackers") {
            Some(Role::Attacker)
        } else {
            None
        }
    }
}

/// An instance that takes part.
#[derive(Debug)]
pub struct InstanceInfo {
    /// The number of the instance among all instances.
    pub global_seq: u64,
    /// The number of the instance within its group.
    pub group_seq: u64,
    pub peer_id: String,
    pub multiaddr: String,
    pub role: Role,
}

impl InstanceInfo {
    /// The name of the instance: its role, followed by its number within the group.
    pub open spec fn title(self) -> Seq<char> {
        self.role.title() + decimal(self.group_seq as nat)
    }

    /// The name of the instance: its role, followed by its number within the group.
    pub fn name(&self) -> (name: String)
        ensures
            name@ == self.title(),
    {
        self.role.name().to_owned().concat(decimal_text(self.group_seq as u128).as_str())
    }
}

/// Whether the instance at place `k` is the first with a peer id.
pub open spec fn first_with_peer_id(
    infos: Seq<InstanceInfo>,
    peer_id: Seq<char>,
    k: int,
) -> bool {
    &&& 0 <= k < infos.len()
    &&& infos[k].peer_id@ == peer_id
    &&& forall|i: int| 0 <= i < k ==> (#[trigger] infos[i]).peer_id@ != peer_id
}

/// The other instances: all but the first with the own peer id. `None` means that the own peer id
/// is missing.
pub fn remove_self(infos: Vec<InstanceInfo>, peer_id: &str) -> (others: Option<Vec<InstanceInfo>>)
    ensures
        match others {
            Some(others) => exists|k: int| #[trigger]
                first_with_peer_id(infos@, peer_id@, k) && others@ == infos@.remove(k),
            None => forall|i: int|
                0 <= i < infos@.len() ==> (#[trigger] infos@[i]).peer_id@ != peer_id@,
        },
{
    let mut others: Vec<InstanceInfo> = infos;
    let mut i: usize = 0;
    while i < others.len()
        invariant
            others@ == infos@,
            i <= others@.len(),
            forall|k: int| 0 <= k < i ==> (#[trigger] others@[k]).peer_id@ != peer_id@,
        decreases others@.len() - i,
    {
        if same_text(others[i].peer_id.as_str(), peer_id) {
            assert(first_with_peer_id(infos@, peer_id@, i as int));
            others.remove(i);
            return Some(others);
        }
        i = i + 1;
    }
    None
}

} // verus!
