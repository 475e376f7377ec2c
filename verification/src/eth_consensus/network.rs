//! A node of the simulation, the topics it gossips on and the messages it sends.

pub mod metrics;
pub mod run;

use self::run::{ATTESTATION_SUBNETS, SYNC_SUBNETS};
use super::{InstanceInfo, Message};
use crate::bytes::{append_be_bytes, be_bytes, be_bytes_round_trip, from_be_bytes};
use crate::ordered::sorted_keys;
use crate::participants::{all_take_part, dial_targets, outbound_of, peers_of};
use crate::rng::random_below;
use crate::text::{
    decimal, decimal_text, is_digit, lemma_decimal_digits, parse_number, read_number,
    read_number_of_decimal, same_text,
};
use std::collections::BTreeMap;
use vstd::prelude::*;

verus! {

/// What is gossiped about.
#[derive(Clone, Copy, Debug, PartialEq, Eq, Structural)]
pub enum Topic {
    Blocks,
    Attestations(u64),
    Aggregates,
    SyncMessages(u64),
    SignedContributionAndProof(u64),
}

/// The place of the last slash of a text.
pub open spec fn last_slash(text: Seq<char>) -> Option<int>
    decreases text.len(),
{
    if text.len() == 0 {
        None
    } else if text.last() == '/' {
        Some(text.len() - 1)
    } else {
        last_slash(text.drop_last())
    }
}

impl Topic {
    /// The name of the topic: its kind, and its subnet behind a slash where it has one.
    pub open spec fn name(self) -> Seq<char> {
        match self {
            Topic::Blocks => "Blocks"@,
            Topic::Aggregates => "Aggregates"@,
            Topic::Attestations(x) => "Attestations/"@ + decimal(x as nat),
            Topic::SyncMessages(x) => "SyncMessages/"@ + decimal(x as nat),
            Topic::SignedContributionAndProof(x) => "SignedContributionAndProof/"@ + decimal(
                x as nat,
            ),
        }
    }

    /// The topic of that name.
    pub open spec fn named(text: Seq<char>) -> Option<Topic> {
        if text == "Blocks"@ {
            Some(Topic::Blocks)
        } else if text == "Aggregates"@ {
            Some(Topic::Aggregates)
        } else {
            match last_slash(text) {
                None => None,
                Some(slash) => match read_number(text.skip(slash + 1), u64::MAX as nat) {
                    Err(_) => None,
                    Ok(subnet) => if text.take(slash) == "Attestations"@ {
                        Some(Topic::Attestations(subnet as u64))
                    } else if text.take(slash) == "SyncMessages"@ {
                        Some(Topic::SyncMessages(subnet as u64))
                    } else if text.take(slash) == "SignedContributionAndProof"@ {
                        Some(Topic::SignedContributionAndProof(subnet as u64))
                    } else {
                        None
                    },
                },
            }
        }
    }

    /// Writes the name of the topic.
    pub fn to_text(&self) -> (text: String)
        ensures
            text@ == self.name(),
    {
        match self {
            Topic::Blocks => "Blocks".to_owned(),
            Topic::Aggregates => "Aggregates".to_owned(),
            Topic::Attestations(x) => {
                "Attestations/".to_owned().concat(decimal_text(*x as u128).as_str())
            },
            Topic::SyncMessages(x) => {
                "SyncMessages/".to_owned().concat(decimal_text(*x as u128).as_str())
            },
            Topic::SignedContributionAndProof(x) => {
                "SignedContributionAndProof/".to_owned().concat(decimal_text(*x as u128).as_str())
            },
        }
    }

    /// Reads the name of a topic. `None` is no name of a topic.
    pub fn from_text(text: &str) -> (topic: Option<Topic>)
        ensures
            topic == Topic::named(text@),
    {
        if same_text(text, "Blocks") {
            return Some(Topic::Blocks);
        }
        if same_text(text, "Aggregates") {
            return Some(Topic::Aggregates);
        }
        let len: usize = text.unicode_len();
        let mut end: usize = len;
        assert(text@.take(len as int) =~= text@);
        while end > 0 && text.get_char(end - 1) != '/'
            invariant
                len == text@.len(),
                end <= len,
                last_slash(text@) == last_slash(text@.take(end as int)),
            decreases end,
        {
            assert(text@.take(end as int).drop_last() =~= text@.take(end - 1));
            end = end - 1;
        }
        if end == 0 {
            return None;
        }
        let kind: &str = text.substring_char(0, end - 1);
        let rest: &str = text.substring_char(end, len);
        assert(kind@ =~= text@.take(end - 1));
        assert(rest@ =~= text@.skip(end as int));
        match parse_number(rest, u64::MAX) {
            Err(_) => None,
            Ok(subnet) => {
                if same_text(kind, "Attestations") {
                    Some(Topic::Attestations(subnet))
                } else if same_text(kind, "SyncMessages") {
                    Some(Topic::SyncMessages(subnet))
                } else if same_text(kind, "SignedContributionAndProof") {
                    Some(Topic::SignedContributionAndProof(subnet))
                } else {
                    None
                }
            },
        }
    }
}

/// The last slash of a text stays the last one where digits follow it.
proof fn lemma_last_slash(kind: Seq<char>, digits: Seq<char>)
    requires
        forall|i: int| 0 <= i < digits.len() ==> is_digit(#[trigger] digits[i]),
    ensures
        last_slash(kind.push('/') + digits) == Some(kind.len() as int),
    decreases digits.len(),
{
    let text = kind.push('/') + digits;
    if digits.len() == 0 {
        assert(text =~= kind.push('/'));
    } else {
        assert(is_digit(digits.last()));
        assert(text.drop_last() =~= kind.push('/') + digits.drop_last());
        lemma_last_slash(kind, digits.drop_last());
    }
}

proof fn lemma_subnet_name(kind: Seq<char>, subnet: u64)
    ensures
        last_slash(kind.push('/') + decimal(subnet as nat)) == Some(kind.len() as int),
        (kind.push('/') + decimal(subnet as nat)).take(kind.len() as int) == kind,
        read_number(
            (kind.push('/') + decimal(subnet as nat)).skip((kind.len() + 1) as int),
            u64::MAX as nat,
        ) == Ok::<nat, crate::text::NumberError>(subnet as nat),
{
    let text = kind.push('/') + decimal(subnet as nat);
    lemma_decimal_digits(subnet as nat);
    lemma_last_slash(kind, decimal(subnet as nat));
    assert(text.take(kind.len() as int) =~= kind);
    assert(text.skip((kind.len() + 1) as int) =~= decimal(subnet as nat));
    read_number_of_decimal(subnet as nat, u64::MAX as nat);
}

/// The name of a topic names that topic.
pub proof fn topic_names_round_trip(topic: Topic)
    ensures
        Topic::named(topic.name()) == Some(topic),
{
    reveal_strlit("Blocks");
    reveal_strlit("Aggregates");
    reveal_strlit("Attestations");
    reveal_strlit("Attestations/");
    reveal_strlit("SyncMessages");
    reveal_strlit("SyncMessages/");
    reveal_strlit("SignedContributionAndProof");
    reveal_strlit("SignedContributionAndProof/");
    match topic {
        Topic::Blocks => {},
        Topic::Aggregates => {
            assert("Aggregates"@.len() != "Blocks"@.len());
        },
        Topic::Attestations(x) => {
            assert("Attestations/"@ =~= "Attestations"@.push('/'));
            lemma_subnet_name("Attestations"@, x);
        },
        Topic::SyncMessages(x) => {
            assert("SyncMessages/"@ =~= "SyncMessages"@.push('/'));
            lemma_subnet_name("SyncMessages"@, x);
            assert("SyncMessages"@[0] != "Attestations"@[0]);
        },
        Topic::SignedContributionAndProof(x) => {
            assert("SignedContributionAndProof/"@ =~= "SignedContributionAndProof"@.push('/'));
            lemma_subnet_name("SignedContributionAndProof"@, x);
            assert("SignedContributionAndProof"@.len() != "SyncMessages"@.len());
            assert("SignedContributionAndProof"@.len() != "Attestations"@.len());
        },
    }
}

/// The topic that a message goes to, and the validator that sends it.
pub open spec fn destination(message: Message) -> (Topic, u64) {
    match message {
        Message::BeaconBlock { proposer, slot } => (Topic::Blocks, proposer),
        Message::AggregateAndProofAttestation { aggregator, subnet, slot } => (
            Topic::Aggregates,
            aggregator,
        ),
        Message::Attestation { attester, subnet, slot } => (Topic::Attestations(subnet), attester),
        Message::SignedContributionAndProof { validator, subnet, slot } => (
            Topic::SignedContributionAndProof(subnet),
            validator,
        ),
        Message::SyncCommitteeMessage { validator, subnet, slot } => (
            Topic::SyncMessages(subnet),
            validator,
        ),
    }
}

/// The topic that a message goes to, and the validator that sends it.
pub fn route(message: &Message) -> (routed: (Topic, u64))
    ensures
        routed == destination(*message),
{
    match message {
        Message::BeaconBlock { proposer, .. } => (Topic::Blocks, *proposer),
        Message::AggregateAndProofAttestation { aggregator, .. } => (
            Topic::Aggregates,
            *aggregator,
        ),
        Message::Attestation { attester, subnet, .. } => (
            Topic::Attestations(*subnet),
            *attester,
        ),
        Message::SignedContributionAndProof { validator, subnet, .. } => (
            Topic::SignedContributionAndProof(*subnet),
            *validator,
        ),
        Message::SyncCommitteeMessage { validator, subnet, .. } => (
            Topic::SyncMessages(*subnet),
            *validator,
        ),
    }
}

/// The topics of the first `subnets` attestation subnets.
pub open spec fn attestation_topics(subnets: nat) -> Seq<Topic> {
    Seq::new(subnets, |subnet: int| Topic::Attestations(subnet as u64))
}

/// The topics of the first `subnets` sync committee subnets: messages, then aggregates, of each.
pub open spec fn sync_topics(subnets: nat) -> Seq<Topic> {
    Seq::new(
        2 * subnets,
        |i: int|
            if i % 2 == 0 {
                Topic::SyncMessages((i / 2) as u64)
            } else {
                Topic::SignedContributionAndProof((i / 2) as u64)
            },
    )
}

/// All topics of the simulation.
pub open spec fn all_topics() -> Seq<Topic> {
    seq![Topic::Blocks, Topic::Aggregates] + attestation_topics(ATTESTATION_SUBNETS as nat)
        + sync_topics(SYNC_SUBNETS as nat)
}

/// All topics of the simulation.
pub fn topics() -> (topics: Vec<Topic>)
    ensures
        topics@ == all_topics(),
{
    let mut topics: Vec<Topic> = Vec::new();
    topics.push(Topic::Blocks);
    topics.push(Topic::Aggregates);
    let ghost start = topics@;
    assert(start =~= seq![Topic::Blocks, Topic::Aggregates]);
    let mut subnet: u64 = 0;
    while subnet < ATTESTATION_SUBNETS
        invariant
            subnet <= ATTESTATION_SUBNETS,
            topics@ =~= start + attestation_topics(subnet as nat),
        decreases ATTESTATION_SUBNETS - subnet,
    {
        topics.push(Topic::Attestations(subnet));
        subnet = subnet + 1;
    }
    let ghost middle = topics@;
    let mut subnet: u64 = 0;
    while subnet < SYNC_SUBNETS
        invariant
            subnet <= SYNC_SUBNETS,
            topics@ =~= middle + sync_topics(subnet as nat),
        decreases SYNC_SUBNETS - subnet,
    {
        topics.push(Topic::SyncMessages(subnet));
        topics.push(Topic::SignedContributionAndProof(subnet));
        assert(topics@ =~= middle + sync_topics((subnet + 1) as nat));
        subnet = subnet + 1;
    }
    topics
}

/// The message that goes out: the payload, and the validator in eight bytes behind it.
pub open spec fn published(validator: u64, payload: Seq<u8>) -> Seq<u8> {
    payload + be_bytes(validator)
}

/// The payload and the validator can be told from a message that goes out.
pub proof fn published_names_validator(validator: u64, payload: Seq<u8>)
    ensures
        published(validator, payload).len() == payload.len() + 8,
        published(validator, payload).take(payload.len() as int) == payload,
        from_be_bytes(published(validator, payload).skip(payload.len() as int)) == validator,
{
    be_bytes_round_trip(validator);
    assert(published(validator, payload).take(payload.len() as int) =~= payload);
    assert(published(validator, payload).skip(payload.len() as int) =~= be_bytes(validator));
}

/// What happens on the transport.
#[derive(Debug)]
pub enum SwarmEvent {
    /// A message was received.
    Message { propagation_source: String, message_id: Vec<u8>, topic: String, size: usize },
    /// Something that needs no answer.
    Other,
}

/// A message that is to be accepted after a delay.
#[derive(Debug)]
pub struct Validation {
    pub message_id: Vec<u8>,
    pub peer_id: String,
    /// The delay in milliseconds.
    pub delay: u64,
}

/// The validation delay in milliseconds that a message of that size stays below.
pub open spec fn delay_limit(msg_size: usize) -> u64 {
    if msg_size <= 300 {
        50
    } else if msg_size <= 600 {
        80
    } else {
        500
    }
}

/// A node of the simulation.
#[derive(Debug)]
pub struct Network {
    /// The id of this node, local to the run.
    pub node_id: usize,
    /// How to reach this node.
    pub instance_info: InstanceInfo,
    /// How to reach the other nodes, by their ids.
    pub participants: BTreeMap<usize, InstanceInfo>,
}

impl Network {
    /// The infos of the nodes to dial, in dialing order.
    pub fn dial_peers(&self, outbound_peers: &BTreeMap<usize, Vec<usize>>) -> (targets: Vec<
        &InstanceInfo,
    >)
        requires
            all_take_part(self.participants@, peers_of(outbound_peers@, self.node_id)),
        ensures
            targets@.len() == peers_of(outbound_peers@, self.node_id).len(),
            forall|i: int|
                0 <= i < targets@.len() ==> *(#[trigger] targets@[i])
                    == self.participants@[peers_of(outbound_peers@, self.node_id)[i]],
    {
        dial_targets(&self.participants, &outbound_of(outbound_peers, self.node_id))
    }

    /// The topics to subscribe to, in this order.
    pub fn subscribe_topics(&self) -> (names: Vec<String>)
        ensures
            names@.len() == all_topics().len(),
            forall|i: int|
                0 <= i < names@.len() ==> (#[trigger] names@[i])@ == all_topics()[i].name(),
    {
        let topics: Vec<Topic> = topics();
        let mut names: Vec<String> = Vec::new();
        let mut i: usize = 0;
        while i < topics.len()
            invariant
                i <= topics@.len(),
                names@.len() == i,
                forall|k: int|
                    0 <= k < names@.len() ==> (#[trigger] names@[k])@ == topics@[k].name(),
            decreases topics@.len() - i,
        {
            names.push(topics[i].to_text());
            i = i + 1;
        }
        names
    }

    /// The name of the topic and the message to publish for a payload of a validator.
    pub fn publish(&self, topic: Topic, validator: u64, payload: Vec<u8>) -> (message: (
        String,
        Vec<u8>,
    ))
        ensures
            message.0@ == topic.name(),
            message.1@ == published(validator, payload@),
    {
        let mut bytes: Vec<u8> = payload;
        append_be_bytes(&mut bytes, validator);
        (topic.to_text(), bytes)
    }

    /// A node that has the given peer id.
    pub fn source_node(&self, peer_id: &str) -> (node: Option<usize>)
        ensures
            match node {
                Some(id) => self.participants@.contains_key(id)
                    && self.participants@[id].peer_id@ == peer_id@,
                None => forall|id: usize| #[trigger]
                    self.participants@.contains_key(id) ==> self.participants@[id].peer_id@
                        != peer_id@,
            },
    {
        let ids: Vec<usize> = sorted_keys(&self.participants);
        let mut i: usize = 0;
        while i < ids.len()
            invariant
                ids@.to_set() == self.participants@.dom(),
                i <= ids@.len(),
                forall|k: int|
                    0 <= k < i ==> self.participants@[#[trigger] ids@[k]].peer_id@ != peer_id@,
            decreases ids@.len() - i,
        {
            let id: usize = ids[i];
            assert(ids@.to_set().contains(id));
            if same_text(self.participants.get(&id).unwrap().peer_id.as_str(), peer_id) {
                return Some(id);
            }
            i = i + 1;
        }
        proof {
            assert forall|id: usize| #[trigger]
                self.participants@.contains_key(id) implies self.participants@[id].peer_id@
                != peer_id@ by {
                assert(ids@.to_set().contains(id));
                let k = choose|k: int| 0 <= k < ids@.len() && ids@[k] == id;
                assert(ids@[k] == id);
            }
        }
        None
    }

    /// Answers an event of the transport: each received message is to be validated after a delay.
    pub fn handle_swarm_event(&self, event: SwarmEvent) -> (validation: Option<Validation>)
        ensures
            match event {
                SwarmEvent::Message { propagation_source, message_id, topic, size } => {
                    &&& validation is Some
                    &&& validation->Some_0.message_id == message_id
                    &&& validation->Some_0.peer_id == propagation_source
                    &&& validation->Some_0.delay < delay_limit(size)
                },
                SwarmEvent::Other => validation is None,
            },
    {
        match event {
            SwarmEvent::Message { propagation_source, message_id, topic, size } => Some(
                self.custom_validation(message_id, propagation_source, size),
            ),
            SwarmEvent::Other => None,
        }
    }

    /// Delays the validation of a message, which stands for half of its propagation time. The
    /// delay is drawn at random and grows with the size of the message.
    pub fn custom_validation(&self, message_id: Vec<u8>, peer_id: String, msg_size: usize) -> (validation:
        Validation)
        ensures
            validation.message_id == message_id,
            validation.peer_id == peer_id,
            validation.delay < delay_limit(msg_size),
    {
        let limit: u64 = if msg_size <= 300 {
            50
        } else if msg_size <= 600 {
            80
        } else {
            500
        };
        Validation { message_id, peer_id, delay: random_below(limit) }
    }
}

} // verus!
