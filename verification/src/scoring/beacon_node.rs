//! An honest node.

use super::received::{
    epoch_points, epoch_queries, note, noted, per_epoch, per_subnet, starts_known, with_value,
    PerEpoch,
};
use super::topic::{all_topics, topic_names, Topic};
use super::utils::{make_origin, origin};
use crate::eth_consensus::network::run::GeneratorSettings;
use crate::eth_consensus::Message;
use crate::gen_topology::Params;
use crate::influx::{
    query, query_views, Double, EntryView, QueryView, Timestamp, Type, TypeView, WriteQuery,
};
use crate::openmetrics::MetricFamily;
use crate::participants::{all_take_part, dial_targets};
use crate::recording::{
    all_recordable, extend_queries, family_points, family_queries, Recorded, Table,
};
use crate::text::{decimal, decimal_text, same_text};
use std::collections::BTreeMap;
use vstd::prelude::*;

verus! {

/// How many attestation subnets there are.
pub const ATTESTATION_SUBNETS: u64 = 4;

/// How many sync committee subnets there are.
pub const SYNC_SUBNETS: u64 = 4;

/// How many seconds a slot lasts.
pub const SLOT: u64 = 12;

/// How many slots an epoch has.
pub const SLOTS_PER_EPOCH: u64 = 32;

/// How many seconds pass between two records of the scores of the peers and of the metrics.
pub const SCORE_INTERVAL: u64 = 3;

/// How many seconds a pruned peer has to wait.
pub const PRUNE_BACKOFF: u64 = 60;

/// How to reach a node, and the validators it runs.
#[derive(Debug)]
pub struct BeaconNodeInfo {
    pub peer_id: String,
    pub multiaddr: String,
    pub validators: Vec<u64>,
}

impl BeaconNodeInfo {
    /// The peer id of the node.
    pub fn peer_id(&self) -> (peer_id: &String)
        ensures
            peer_id == self.peer_id,
    {
        &self.peer_id
    }

    /// The address of the node.
    pub fn multiaddr(&self) -> (multiaddr: &String)
        ensures
            multiaddr == self.multiaddr,
    {
        &self.multiaddr
    }

    /// The validators that the node runs.
    pub fn validators(&self) -> (validators: &Vec<u64>)
        ensures
            validators == self.validators,
    {
        &self.validators
    }
}

/// How the messages of the validators of a network are generated.
pub fn generator_settings(params: &Params) -> (settings: GeneratorSettings)
    ensures
        settings == (GeneratorSettings {
            genesis_slot: 0,
            genesis_duration: 0,
            slot_duration: SLOT,
            slots_per_epoch: SLOTS_PER_EPOCH,
            sync_subnet_size: 2,
            sync_committee_subnets: SYNC_SUBNETS,
            total_validators: params@.total_validators as u64,
            target_aggregators: 14,
            attestation_subnets: ATTESTATION_SUBNETS,
        }),
{
    GeneratorSettings {
        genesis_slot: 0,
        genesis_duration: 0,
        slot_duration: SLOT,
        slots_per_epoch: SLOTS_PER_EPOCH,
        sync_subnet_size: 2,
        sync_committee_subnets: SYNC_SUBNETS,
        total_validators: params.total_validators() as u64,
        target_aggregators: 14,
        attestation_subnets: ATTESTATION_SUBNETS,
    }
}

/// The topic that a message goes to, its validator and its slot.
pub open spec fn destination(message: Message) -> (Topic, u64, u64) {
    match message {
        Message::BeaconBlock { proposer, slot } => (Topic::Blocks, proposer, slot),
        Message::AggregateAndProofAttestation { aggregator, subnet, slot } => (
            Topic::Aggregates(subnet),
            aggregator,
            slot,
        ),
        Message::Attestation { attester, subnet, slot } => (
            Topic::Attestations(subnet),
            attester,
            slot,
        ),
        Message::SignedContributionAndProof { validator, subnet, slot } => (
            Topic::SignedContributionAndProof(subnet),
            validator,
            slot,
        ),
        Message::SyncCommitteeMessage { validator, subnet, slot } => (
            Topic::SyncMessages(subnet),
            validator,
            slot,
        ),
    }
}

/// The topic that a message goes to, its validator and its slot.
pub fn route(message: &Message) -> (routed: (Topic, u64, u64))
    ensures
        routed == destination(*message),
{
    match message {
        Message::BeaconBlock { proposer, slot } => (Topic::Blocks, *proposer, *slot),
        Message::AggregateAndProofAttestation { aggregator, subnet, slot } => (
            Topic::Aggregates(*subnet),
            *aggregator,
            *slot,
        ),
        Message::Attestation { attester, subnet, slot } => (
            Topic::Attestations(*subnet),
            *attester,
            *slot,
        ),
        Message::SignedContributionAndProof { validator, subnet, slot } => (
            Topic::SignedContributionAndProof(*subnet),
            *validator,
            *slot,
        ),
        Message::SyncCommitteeMessage { validator, subnet, slot } => (
            Topic::SyncMessages(*subnet),
            *validator,
            *slot,
        ),
    }
}

/// The messages that a node received, by kind, subnet and epoch.
#[derive(Debug)]
pub struct Received {
    pub beacon_blocks: PerEpoch,
    pub aggregates: Vec<PerEpoch>,
    pub attestations: Vec<PerEpoch>,
    pub sync_committee_aggregates: Vec<PerEpoch>,
    pub sync_committee_messages: Vec<PerEpoch>,
}

/// What [`Received`] stands for: the slots of blocks, and the validators of the other messages.
#[verifier::ext_equal]
pub struct ReceivedView {
    pub beacon_blocks: Map<u64, Set<u64>>,
    pub aggregates: Seq<Map<u64, Set<u64>>>,
    pub attestations: Seq<Map<u64, Set<u64>>>,
    pub sync_committee_aggregates: Seq<Map<u64, Set<u64>>>,
    pub sync_committee_messages: Seq<Map<u64, Set<u64>>>,
}

impl View for Received {
    type V = ReceivedView;

    open spec fn view(&self) -> ReceivedView {
        ReceivedView {
            beacon_blocks: per_epoch(self.beacon_blocks@),
            aggregates: per_subnet(self.aggregates@),
            attestations: per_subnet(self.attestations@),
            sync_committee_aggregates: per_subnet(self.sync_committee_aggregates@),
            sync_committee_messages: per_subnet(self.sync_committee_messages@),
        }
    }
}

/// Nothing received on so many subnets.
pub open spec fn nothing_received(subnets: u64) -> Seq<Map<u64, Set<u64>>> {
    Seq::new(subnets as nat, |i: int| Map::empty())
}

/// Whether a topic has a subnet of the network.
pub open spec fn known_topic(topic: Topic) -> bool {
    match topic {
        Topic::Blocks => true,
        Topic::Aggregates(subnet) | Topic::Attestations(subnet) => subnet < ATTESTATION_SUBNETS,
        Topic::SignedContributionAndProof(subnet) | Topic::SyncMessages(subnet) => subnet
            < SYNC_SUBNETS,
    }
}

/// Whether a topic has a subnet of the network.
pub fn knows_topic(topic: &Topic) -> (known: bool)
    ensures
        known == known_topic(*topic),
{
    match topic {
        Topic::Blocks => true,
        Topic::Aggregates(subnet) | Topic::Attestations(subnet) => *subnet < ATTESTATION_SUBNETS,
        Topic::SignedContributionAndProof(subnet) | Topic::SyncMessages(subnet) => *subnet
            < SYNC_SUBNETS,
    }
}

impl ReceivedView {
    /// Whether there is a place for each subnet.
    pub open spec fn well_formed(self) -> bool {
        &&& self.aggregates.len() == ATTESTATION_SUBNETS
        &&& self.attestations.len() == ATTESTATION_SUBNETS
        &&& self.sync_committee_aggregates.len() == SYNC_SUBNETS
        &&& self.sync_committee_messages.len() == SYNC_SUBNETS
    }

    /// Whether a message was received: of a block the slot counts, of the others the validator,
    /// once in each epoch.
    pub open spec fn has(self, topic: Topic, validator: u64, slot: u64) -> bool {
        let epoch = slot / SLOTS_PER_EPOCH;
        match topic {
            Topic::Blocks => noted(self.beacon_blocks, epoch, slot),
            Topic::Aggregates(subnet) => noted(self.aggregates[subnet as int], epoch, validator),
            Topic::Attestations(subnet) => noted(
                self.attestations[subnet as int],
                epoch,
                validator,
            ),
            Topic::SignedContributionAndProof(subnet) => noted(
                self.sync_committee_aggregates[subnet as int],
                epoch,
                validator,
            ),
            Topic::SyncMessages(subnet) => noted(
                self.sync_committee_messages[subnet as int],
                epoch,
                validator,
            ),
        }
    }

    /// What was received, with one more message.
    pub open spec fn with(self, topic: Topic, validator: u64, slot: u64) -> ReceivedView {
        let epoch = slot / SLOTS_PER_EPOCH;
        match topic {
            Topic::Blocks => ReceivedView {
                beacon_blocks: with_value(self.beacon_blocks, epoch, slot),
                ..self
            },
            Topic::Aggregates(subnet) => ReceivedView {
                aggregates: self.aggregates.update(
                    subnet as int,
                    with_value(self.aggregates[subnet as int], epoch, validator),
                ),
                ..self
            },
            Topic::Attestations(subnet) => ReceivedView {
                attestations: self.attestations.update(
                    subnet as int,
                    with_value(self.attestations[subnet as int], epoch, validator),
                ),
                ..self
            },
            Topic::SignedContributionAndProof(subnet) => ReceivedView {
                sync_committee_aggregates: self.sync_committee_aggregates.update(
                    subnet as int,
                    with_value(self.sync_committee_aggregates[subnet as int], epoch, validator),
                ),
                ..self
            },
            Topic::SyncMessages(subnet) => ReceivedView {
                sync_committee_messages: self.sync_committee_messages.update(
                    subnet as int,
                    with_value(self.sync_committee_messages[subnet as int], epoch, validator),
                ),
                ..self
            },
        }
    }
}

/// A received message is known to be received, and receiving it again changes nothing.
pub proof fn received_messages_are_kept(
    received: ReceivedView,
    topic: Topic,
    validator: u64,
    slot: u64,
)
    requires
        received.well_formed(),
        known_topic(topic),
    ensures
        received.with(topic, validator, slot).well_formed(),
        received.with(topic, validator, slot).has(topic, validator, slot),
        received.with(topic, validator, slot).with(topic, validator, slot) == received.with(
            topic,
            validator,
            slot,
        ),
{
    let epoch = slot / SLOTS_PER_EPOCH;
    let once = received.with(topic, validator, slot);
    match topic {
        Topic::Blocks => {
            super::received::receiving_twice_is_once(received.beacon_blocks, epoch, slot);
        },
        Topic::Aggregates(subnet) => {
            super::received::receiving_twice_is_once(
                received.aggregates[subnet as int],
                epoch,
                validator,
            );
        },
        Topic::Attestations(subnet) => {
            super::received::receiving_twice_is_once(
                received.attestations[subnet as int],
                epoch,
                validator,
            );
        },
        Topic::SignedContributionAndProof(subnet) => {
            super::received::receiving_twice_is_once(
                received.sync_committee_aggregates[subnet as int],
                epoch,
                validator,
            );
        },
        Topic::SyncMessages(subnet) => {
            super::received::receiving_twice_is_once(
                received.sync_committee_messages[subnet as int],
                epoch,
                validator,
            );
        },
    }
    assert(once.with(topic, validator, slot) =~= once);
}

/// Nothing received on so many subnets.
fn empty_subnets(subnets: u64) -> (empty: Vec<PerEpoch>)
    ensures
        per_subnet(empty@) == nothing_received(subnets),
{
    let mut empty: Vec<PerEpoch> = Vec::new();
    let mut i: u64 = 0;
    while i < subnets
        invariant
            i <= subnets,
            empty@.len() == i,
            forall|k: int| 0 <= k < i ==> per_epoch((#[trigger] empty@[k])@) == Map::<
                u64,
                Set<u64>,
            >::empty(),
        decreases subnets - i,
    {
        let map: PerEpoch = BTreeMap::new();
        assert(per_epoch(map@) =~= Map::empty());
        empty.push(map);
        i = i + 1;
    }
    assert(per_subnet(empty@) =~= nothing_received(subnets));
    empty
}

/// Notes that a message of a validator was received on a subnet.
fn note_on_subnet(maps: &mut Vec<PerEpoch>, subnet: u64, epoch: u64, validator: u64) -> (new: bool)
    requires
        subnet < old(maps)@.len(),
    ensures
        per_subnet(final(maps)@) == per_subnet(old(maps)@).update(
            subnet as int,
            with_value(per_subnet(old(maps)@)[subnet as int], epoch, validator),
        ),
        new == !noted(per_subnet(old(maps)@)[subnet as int], epoch, validator),
{
    let len: usize = maps.len();
    let place: usize = subnet as usize;
    assert(place == subnet && place < len);
    let new: bool = note(&mut maps[place], epoch, validator);
    assert(per_subnet(maps@) =~= per_subnet(old(maps)@).update(
        subnet as int,
        with_value(per_subnet(old(maps)@)[subnet as int], epoch, validator),
    ));
    new
}

impl Received {
    /// Nothing received yet.
    pub fn new() -> (received: Self)
        ensures
            received@ == (ReceivedView {
                beacon_blocks: Map::empty(),
                aggregates: nothing_received(ATTESTATION_SUBNETS),
                attestations: nothing_received(ATTESTATION_SUBNETS),
                sync_committee_aggregates: nothing_received(SYNC_SUBNETS),
                sync_committee_messages: nothing_received(SYNC_SUBNETS),
            }),
            received@.well_formed(),
    {
        let received = Received {
            beacon_blocks: BTreeMap::new(),
            aggregates: empty_subnets(ATTESTATION_SUBNETS),
            attestations: empty_subnets(ATTESTATION_SUBNETS),
            sync_committee_aggregates: empty_subnets(SYNC_SUBNETS),
            sync_committee_messages: empty_subnets(SYNC_SUBNETS),
        };
        assert(received@.beacon_blocks =~= Map::empty());
        received
    }

    /// Notes a message. Tells whether it is new.
    pub fn receive(&mut self, topic: Topic, validator: u64, slot: u64) -> (new: bool)
        requires
            old(self)@.well_formed(),
            known_topic(topic),
        ensures
            final(self)@ == old(self)@.with(topic, validator, slot),
            final(self)@.well_formed(),
            new == !old(self)@.has(topic, validator, slot),
    {
        let epoch: u64 = slot / SLOTS_PER_EPOCH;
        match topic {
            Topic::Blocks => note(&mut self.beacon_blocks, epoch, slot),
            Topic::Aggregates(subnet) => note_on_subnet(
                &mut self.aggregates,
                subnet,
                epoch,
                validator,
            ),
            Topic::Attestations(subnet) => note_on_subnet(
                &mut self.attestations,
                subnet,
                epoch,
                validator,
            ),
            Topic::SignedContributionAndProof(subnet) => note_on_subnet(
                &mut self.sync_committee_aggregates,
                subnet,
                epoch,
                validator,
            ),
            Topic::SyncMessages(subnet) => note_on_subnet(
                &mut self.sync_committee_messages,
                subnet,
                epoch,
                validator,
            ),
        }
    }
}

/// The data points of what was received on the first `subnets` subnets, one subnet after the other.
/// The number of the subnet stands behind the measurement.
pub open spec fn subnet_points(
    starts: Map<u64, Timestamp>,
    measurement: Seq<char>,
    peer_id: Seq<char>,
    run_id: Seq<char>,
    messages: Seq<Map<u64, Set<u64>>>,
    subnets: nat,
) -> Seq<QueryView>
    decreases subnets,
{
    if subnets == 0 {
        Seq::empty()
    } else {
        let subnet = (subnets - 1) as nat;
        subnet_points(starts, measurement, peer_id, run_id, messages, subnet) + epoch_points(
            starts,
            "scoring_"@ + measurement + "_"@ + decimal(subnet),
            peer_id,
            run_id,
            messages[subnet as int],
        )
    }
}

/// Whether the start of every epoch in which something was received on a subnet is known.
pub open spec fn subnet_starts_known(
    starts: Map<u64, Timestamp>,
    messages: Seq<Map<u64, Set<u64>>>,
) -> bool {
    forall|i: int| 0 <= i < messages.len() ==> starts_known(starts, #[trigger] messages[i])
}

/// Whether the start of every epoch in which something was received is known.
pub open spec fn all_starts_known(starts: Map<u64, Timestamp>, received: ReceivedView) -> bool {
    &&& starts_known(starts, received.beacon_blocks)
    &&& subnet_starts_known(starts, received.aggregates)
    &&& subnet_starts_known(starts, received.attestations)
    &&& subnet_starts_known(starts, received.sync_committee_aggregates)
    &&& subnet_starts_known(starts, received.sync_committee_messages)
}

/// The score of a peer.
#[derive(Debug)]
pub struct PeerScore {
    pub peer_id: String,
    pub score: Double,
}

/// Whether a text is among some texts.
pub open spec fn among(texts: Seq<String>, text: Seq<char>) -> bool {
    exists|i: int| 0 <= i < texts.len() && (#[trigger] texts[i])@ == text
}

/// Whether a text is among some texts.
fn is_among(texts: &Vec<String>, text: &str) -> (found: bool)
    ensures
        found == among(texts@, text@),
{
    let mut i: usize = 0;
    while i < texts.len()
        invariant
            i <= texts@.len(),
            forall|k: int| 0 <= k < i ==> (#[trigger] texts@[k])@ != text@,
        decreases texts@.len() - i,
    {
        if same_text(texts[i].as_str(), text) {
            return true;
        }
        i = i + 1;
    }
    false
}

/// The field of a score: the peer id, marked where the peer is an attacker.
pub open spec fn score_field(attackers: Seq<String>, score: PeerScore) -> EntryView {
    EntryView {
        name: if among(attackers, score.peer_id@) {
            "attacker_"@ + score.peer_id@
        } else {
            score.peer_id@
        },
        value: TypeView::Float(score.score),
    }
}

/// The data point of the scores of all peers.
pub open spec fn score_point(
    now: Timestamp,
    peer_id: Seq<char>,
    run_id: Seq<char>,
    attackers: Seq<String>,
    scores: Seq<PeerScore>,
) -> QueryView {
    QueryView {
        fields: scores.map_values(|score: PeerScore| score_field(attackers, score)),
        ..query(now, "scoring_scores"@).text_tag("peer_id"@, peer_id).text_tag("run_id"@, run_id)
    }
}

/// The metrics of gossipsub, of which only counters are recorded.
pub struct Metrics {}

impl Table for Metrics {
    open spec fn recorded(name: Seq<char>) -> Option<Recorded> {
        if name == "topic_subscription_status"@ || name == "topic_peers_counts"@ || name
            == "mesh_peer_counts"@ || name == "score_per_mesh"@ || name == "peers_per_protocol"@
            || name == "heartbeat_duration"@ {
            Some(Recorded::Skipped)
        } else if name == "invalid_messages_per_topic"@ || name == "accepted_messages_per_topic"@
            || name == "ignored_messages_per_topic"@ || name == "rejected_messages_per_topic"@
            || name == "mesh_peer_inclusion_events"@ || name == "mesh_peer_churn_events"@ || name
            == "topic_msg_sent_counts"@ || name == "topic_msg_published"@ || name
            == "topic_msg_sent_bytes"@ || name == "topic_msg_recv_counts_unfiltered"@ || name
            == "topic_msg_recv_counts"@ || name == "topic_msg_recv_bytes"@ || name
            == "scoring_penalties"@ || name == "topic_iwant_msgs"@ || name == "memcache_misses"@ {
            Some(Recorded::Counter)
        } else {
            None
        }
    }

    fn recorded_as(name: &str) -> (recorded: Option<Recorded>) {
        if same_text(name, "topic_subscription_status") || same_text(name, "topic_peers_counts")
            || same_text(name, "mesh_peer_counts") || same_text(name, "score_per_mesh")
            || same_text(name, "peers_per_protocol") || same_text(name, "heartbeat_duration") {
            Some(Recorded::Skipped)
        } else if same_text(name, "invalid_messages_per_topic") || same_text(
            name,
            "accepted_messages_per_topic",
        ) || same_text(name, "ignored_messages_per_topic") || same_text(
            name,
            "rejected_messages_per_topic",
        ) || same_text(name, "mesh_peer_inclusion_events") || same_text(
            name,
            "mesh_peer_churn_events",
        ) || same_text(name, "topic_msg_sent_counts") || same_text(name, "topic_msg_published")
            || same_text(name, "topic_msg_sent_bytes") || same_text(
            name,
            "topic_msg_recv_counts_unfiltered",
        ) || same_text(name, "topic_msg_recv_counts") || same_text(name, "topic_msg_recv_bytes")
            || same_text(name, "scoring_penalties") || same_text(name, "topic_iwant_msgs")
            || same_text(name, "memcache_misses") {
            Some(Recorded::Counter)
        } else {
            None
        }
    }
}

/// What gossipsub tells.
#[derive(Debug)]
pub enum GossipsubEvent {
    /// A message was received.
    Message { topic: Topic, validator: u64, slot: u64 },
    /// Something that needs no answer.
    Other,
}

/// What happens during a run.
#[derive(Debug)]
pub enum SimEvent {
    /// The run time is over.
    Deadline,
    /// A validator sends a message.
    Generated(Message),
    /// Scores and metrics are due.
    RecordingDue,
    /// Gossipsub tells something.
    Gossipsub(GossipsubEvent),
    /// Something else happened on the transport.
    Other,
}

/// What is to be done about an event.
#[derive(Debug)]
pub enum SimAction {
    /// End the run and record what was received.
    Stop,
    /// Publish a message of a validator for a slot.
    Publish { topic: String, validator: u64, slot: u64 },
    /// Record the scores of the peers and the metrics.
    Record,
    /// Go on.
    Nothing,
}

/// An honest node.
#[derive(Debug)]
pub struct Network {
    pub node_id: usize,
    pub beacon_node_info: BeaconNodeInfo,
    pub participants: BTreeMap<usize, BeaconNodeInfo>,
    /// The peer ids of the attackers.
    pub attackers: Vec<String>,
    pub received: Received,
}

impl Network {
    /// A node that has not received anything yet.
    pub fn new(
        node_id: usize,
        beacon_node_info: BeaconNodeInfo,
        participants: BTreeMap<usize, BeaconNodeInfo>,
        attackers: Vec<String>,
    ) -> (network: Self)
        ensures
            network.node_id == node_id,
            network.beacon_node_info == beacon_node_info,
            network.participants == participants,
            network.attackers == attackers,
            network.received@ == (ReceivedView {
                beacon_blocks: Map::empty(),
                aggregates: nothing_received(ATTESTATION_SUBNETS),
                attestations: nothing_received(ATTESTATION_SUBNETS),
                sync_committee_aggregates: nothing_received(SYNC_SUBNETS),
                sync_committee_messages: nothing_received(SYNC_SUBNETS),
            }),
            network.received@.well_formed(),
    {
        Network {
            node_id,
            beacon_node_info,
            participants,
            attackers,
            received: Received::new(),
        }
    }

    /// The infos of the nodes to dial, in dialing order.
    pub fn dial_peers(&self, outbound_peers: &Vec<usize>) -> (targets: Vec<&BeaconNodeInfo>)
        requires
            all_take_part(self.participants@, outbound_peers@),
        ensures
            targets@.len() == outbound_peers@.len(),
            forall|i: int|
                0 <= i < targets@.len() ==> *(#[trigger] targets@[i])
                    == self.participants@[outbound_peers@[i]],
    {
        dial_targets(&self.participants, outbound_peers)
    }

    /// The topics to subscribe to, in this order.
    pub fn subscribe_topics(&self) -> (names: Vec<String>)
        ensures
            names@.len() == all_topics(ATTESTATION_SUBNETS, SYNC_SUBNETS).len(),
            forall|i: int|
                0 <= i < names@.len() ==> (#[trigger] names@[i])@ == all_topics(
                    ATTESTATION_SUBNETS,
                    SYNC_SUBNETS,
                )[i].name(),
    {
        topic_names(ATTESTATION_SUBNETS, SYNC_SUBNETS)
    }

    /// Notes a received message. Tells whether it was received before.
    pub fn handle_gossipsub_event(&mut self, event: GossipsubEvent) -> (repeated: bool)
        requires
            old(self).received@.well_formed(),
            event matches GossipsubEvent::Message { topic, validator, slot } ==> known_topic(topic),
        ensures
            *final(self) == (Network { received: final(self).received, ..*old(self) }),
            final(self).received@.well_formed(),
            match event {
                GossipsubEvent::Message { topic, validator, slot } => {
                    &&& final(self).received@ == old(self).received@.with(topic, validator, slot)
                    &&& repeated == old(self).received@.has(topic, validator, slot)
                },
                GossipsubEvent::Other => !repeated && final(self).received == old(self).received,
            },
    {
        match event {
            GossipsubEvent::Message { topic, validator, slot } => !self.received.receive(
                topic,
                validator,
                slot,
            ),
            GossipsubEvent::Other => false,
        }
    }

    /// Decides what is to be done about an event.
    pub fn on_event(&mut self, event: SimEvent) -> (action: SimAction)
        requires
            old(self).received@.well_formed(),
            event matches SimEvent::Gossipsub(
                GossipsubEvent::Message { topic, validator, slot },
            ) ==> known_topic(topic),
        ensures
            *final(self) == (Network { received: final(self).received, ..*old(self) }),
            final(self).received@.well_formed(),
            final(self).received@ == match event {
                SimEvent::Gossipsub(GossipsubEvent::Message { topic, validator, slot }) => old(
                    self,
                ).received@.with(topic, validator, slot),
                _ => old(self).received@,
            },
            match event {
                SimEvent::Deadline => action is Stop,
                SimEvent::Generated(message) => {
                    &&& action is Publish
                    &&& action->Publish_topic@ == destination(message).0.name()
                    &&& action->Publish_validator == destination(message).1
                    &&& action->Publish_slot == destination(message).2
                },
                SimEvent::RecordingDue => action is Record,
                _ => action is Nothing,
            },
    {
        match event {
            SimEvent::Deadline => SimAction::Stop,
            SimEvent::Generated(message) => {
                let (topic, validator, slot): (Topic, u64, u64) = route(&message);
                SimAction::Publish { topic: topic.to_text(), validator, slot }
            },
            SimEvent::RecordingDue => SimAction::Record,
            SimEvent::Gossipsub(told) => {
                self.handle_gossipsub_event(told);
                SimAction::Nothing
            },
            SimEvent::Other => SimAction::Nothing,
        }
    }

    /// Queries for the number of blocks received in each epoch.
    pub fn record_received_beacon_blocks(
        &self,
        run_id: &str,
        starts: &BTreeMap<u64, Timestamp>,
    ) -> (queries: Vec<WriteQuery>)
        requires
            starts_known(starts@, self.received@.beacon_blocks),
        ensures
            query_views(queries@) == epoch_points(
                starts@,
                "scoring_beacon_block"@,
                self.beacon_node_info.peer_id@,
                run_id@,
                self.received@.beacon_blocks,
            ),
    {
        epoch_queries(
            starts,
            "scoring_beacon_block",
            self.beacon_node_info.peer_id.as_str(),
            run_id,
            &self.received.beacon_blocks,
        )
    }

    /// Queries for the number of messages received in each epoch, one subnet after the other.
    pub fn record_received_messages(
        &self,
        measurement: &str,
        subnets: u64,
        messages: &Vec<PerEpoch>,
        run_id: &str,
        starts: &BTreeMap<u64, Timestamp>,
    ) -> (queries: Vec<WriteQuery>)
        requires
            subnets <= messages@.len(),
            subnet_starts_known(starts@, per_subnet(messages@).take(subnets as int)),
        ensures
            query_views(queries@) == subnet_points(
                starts@,
                measurement@,
                self.beacon_node_info.peer_id@,
                run_id@,
                per_subnet(messages@),
                subnets as nat,
            ),
    {
        let mut queries: Vec<WriteQuery> = Vec::new();
        let ghost peer_id = self.beacon_node_info.peer_id@;
        let len: usize = messages.len();
        let count: usize = subnets as usize;
        assert(count == subnets && count <= len);
        let mut subnet: usize = 0;
        assert(query_views(queries@) =~= Seq::empty());
        while subnet < count
            invariant
                count == subnets,
                count <= messages@.len(),
                subnet_starts_known(starts@, per_subnet(messages@).take(count as int)),
                peer_id == self.beacon_node_info.peer_id@,
                subnet <= count,
                query_views(queries@) == subnet_points(
                    starts@,
                    measurement@,
                    peer_id,
                    run_id@,
                    per_subnet(messages@),
                    subnet as nat,
                ),
            decreases count - subnet,
        {
            let name: String = "scoring_".to_owned().concat(measurement).concat("_").concat(
                decimal_text(subnet as u128).as_str(),
            );
            assert(starts_known(starts@, per_subnet(messages@).take(count as int)[subnet as int]));
            let more: Vec<WriteQuery> = epoch_queries(
                starts,
                name.as_str(),
                self.beacon_node_info.peer_id.as_str(),
                run_id,
                &messages[subnet],
            );
            extend_queries(&mut queries, more);
            subnet = subnet + 1;
        }
        queries
    }

    /// Queries for everything that was received.
    pub fn record_results(&self, run_id: &str, starts: &BTreeMap<u64, Timestamp>) -> (queries: Vec<
        WriteQuery,
    >)
        requires
            self.received@.well_formed(),
            all_starts_known(starts@, self.received@),
        ensures
            ({
                let peer = self.beacon_node_info.peer_id@;
                let received = self.received@;
                query_views(queries@) == epoch_points(
                    starts@,
                    "scoring_beacon_block"@,
                    peer,
                    run_id@,
                    received.beacon_blocks,
                ) + subnet_points(
                    starts@,
                    "aggregates"@,
                    peer,
                    run_id@,
                    received.aggregates,
                    ATTESTATION_SUBNETS as nat,
                ) + subnet_points(
                    starts@,
                    "attestations"@,
                    peer,
                    run_id@,
                    received.attestations,
                    ATTESTATION_SUBNETS as nat,
                ) + subnet_points(
                    starts@,
                    "sync_committee_aggregates"@,
                    peer,
                    run_id@,
                    received.sync_committee_aggregates,
                    SYNC_SUBNETS as nat,
                ) + subnet_points(
                    starts@,
                    "sync_committee_messages"@,
                    peer,
                    run_id@,
                    received.sync_committee_messages,
                    SYNC_SUBNETS as nat,
                )
            }),
    {
        proof {
            let received = self.received@;
            assert(received.aggregates.take(ATTESTATION_SUBNETS as int) =~= received.aggregates);
            assert(received.attestations.take(ATTESTATION_SUBNETS as int)
                =~= received.attestations);
            assert(received.sync_committee_aggregates.take(SYNC_SUBNETS as int)
                =~= received.sync_committee_aggregates);
            assert(received.sync_committee_messages.take(SYNC_SUBNETS as int)
                =~= received.sync_committee_messages);
        }
        let mut queries: Vec<WriteQuery> = self.record_received_beacon_blocks(run_id, starts);
        extend_queries(
            &mut queries,
            self.record_received_messages(
                "aggregates",
                ATTESTATION_SUBNETS,
                &self.received.aggregates,
                run_id,
                starts,
            ),
        );
        extend_queries(
            &mut queries,
            self.record_received_messages(
                "attestations",
                ATTESTATION_SUBNETS,
                &self.received.attestations,
                run_id,
                starts,
            ),
        );
        extend_queries(
            &mut queries,
            self.record_received_messages(
                "sync_committee_aggregates",
                SYNC_SUBNETS,
                &self.received.sync_committee_aggregates,
                run_id,
                starts,
            ),
        );
        extend_queries(
            &mut queries,
            self.record_received_messages(
                "sync_committee_messages",
                SYNC_SUBNETS,
                &self.received.sync_committee_messages,
                run_id,
                starts,
            ),
        );
        queries
    }

    /// The query for the scores of the peers. There is none where no peer has a score.
    pub fn record_peer_scores(
        &self,
        now: Timestamp,
        run_id: &str,
        scores: &Vec<PeerScore>,
    ) -> (record: Option<WriteQuery>)
        ensures
            match record {
                Some(record) => scores@.len() > 0 && record@ == score_point(
                    now,
                    self.beacon_node_info.peer_id@,
                    run_id@,
                    self.attackers@,
                    scores@,
                ),
                None => scores@.len() == 0,
            },
    {
        if scores.len() == 0 {
            return None;
        }
        let mut record: WriteQuery = WriteQuery::new(now, "scoring_scores").add_text_tag(
            "peer_id",
            self.beacon_node_info.peer_id.as_str(),
        ).add_text_tag("run_id", run_id);
        let ghost start = record@;
        let ghost fields = scores@.map_values(
            |score: PeerScore| score_field(self.attackers@, score),
        );
        let mut i: usize = 0;
        assert(record@ =~= (QueryView { fields: fields.take(0), ..start }));
        while i < scores.len()
            invariant
                fields == scores@.map_values(
                    |score: PeerScore| score_field(self.attackers@, score),
                ),
                i <= scores@.len(),
                record@ == (QueryView { fields: fields.take(i as int), ..start }),
            decreases scores@.len() - i,
        {
            let peer: &str = scores[i].peer_id.as_str();
            let name: String = if is_among(&self.attackers, peer) {
                "attacker_".to_owned().concat(peer)
            } else {
                peer.to_owned()
            };
            record = record.add_field(name.as_str(), Type::Float(scores[i].score));
            assert(fields.take(i + 1) =~= fields.take(i as int).push(fields[i as int]));
            assert(record@ =~= (QueryView { fields: fields.take(i + 1), ..start }));
            i = i + 1;
        }
        assert(fields.take(i as int) =~= fields);
        Some(record)
    }

    /// Queries for the metrics of gossipsub.
    pub fn record_metrics(&self, now: Timestamp, run_id: &str, families: &Vec<MetricFamily>) -> (queries:
        Vec<WriteQuery>)
        requires
            all_recordable::<Metrics>(families@),
        ensures
            query_views(queries@) == family_points::<Metrics>(
                origin(now, self.beacon_node_info.peer_id@, run_id@),
                families@,
            ),
    {
        family_queries::<Metrics>(
            &make_origin(now, self.beacon_node_info.peer_id.as_str(), run_id),
            families,
        )
    }
}

} // verus!
