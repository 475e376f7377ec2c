//! An instance that lets itself into the mesh of its victim and propagates nothing.

use super::InstanceInfo;
use crate::scoring::attacker::{
    answer_messages, outgoing_views, subscribed, MaliciousBehaviour as Answers, Outgoing,
    Subscription,
};
use vstd::prelude::*;

verus! {

/// The behaviour of an attacker.
#[derive(Debug)]
pub struct MaliciousBehaviour {
    /// Answers that are to be sent.
    pub answers: Answers,
}

impl MaliciousBehaviour {
    /// A behaviour with nothing to send.
    pub fn new() -> (behaviour: Self)
        ensures
            behaviour.answers.events@ == Seq::<Outgoing>::empty(),
    {
        MaliciousBehaviour { answers: Answers::new() }
    }

    /// Answers what a peer sent: each topic that it subscribes to is subscribed to and grafted. Its
    /// messages are not propagated.
    pub fn inject_event(&mut self, peer_id: &str, subscriptions: &Vec<Subscription>)
        ensures
            outgoing_views(final(self).answers.events@) == outgoing_views(old(self).answers.events@)
                + answer_messages(peer_id@, subscribed(subscriptions@)),
    {
        self.answers.handle_received_subscriptions(subscriptions, peer_id);
    }

    /// The next message that is to be sent.
    pub fn next_event(&mut self) -> (event: Option<Outgoing>)
        ensures
            match event {
                Some(event) => old(self).answers.events@.len() > 0 && event
                    == old(self).answers.events@[0] && final(self).answers.events@
                    == old(self).answers.events@.drop_first(),
                None => old(self).answers.events@.len() == 0 && final(self).answers.events@
                    == old(self).answers.events@,
            },
    {
        self.answers.next_event()
    }
}

/// Whether an instance can be the victim: it is the first publisher.
pub open spec fn is_victim(info: InstanceInfo) -> bool {
    info.role is Publisher && info.group_seq == 1
}

/// The victim: the first participant that is the first publisher. `None` means that there is none.
pub fn find_victim(participants: &Vec<InstanceInfo>) -> (victim: Option<&InstanceInfo>)
    ensures
        match victim {
            Some(victim) => exists|k: int|
                0 <= k < participants@.len() && #[trigger] participants@[k] == *victim && is_victim(
                    *victim,
                ) && forall|i: int| 0 <= i < k ==> !is_victim(#[trigger] participants@[i]),
            None => forall|i: int|
                0 <= i < participants@.len() ==> !is_victim(#[trigger] participants@[i]),
        },
{
    let mut i: usize = 0;
    while i < participants.len()
        invariant
            i <= participants@.len(),
            forall|k: int| 0 <= k < i ==> !is_victim(#[trigger] participants@[k]),
        decreases participants@.len() - i,
    {
        let info: &InstanceInfo = &participants[i];
        if info.role.is_publisher() && info.group_seq == 1 {
            return Some(info);
        }
        i = i + 1;
    }
    None
}

} // verus!
