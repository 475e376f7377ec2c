//! The simulation with messages in JSON.

use super::utils::{make_origin, origin};
use super::{InstanceInfo, Message};
use crate::eth_consensus::network::metrics::{
    is_metrics_info, make_metrics_info, RecordMetricsInfo,
};
use crate::eth_consensus::network::run::GeneratorSettings;
use crate::gen_topology::Params;
use crate::influx::{query_views, Timestamp, WriteQuery};
use crate::openmetrics::MetricFamily;
use crate::participants::{all_take_part, dial_targets, outbound_of, peers_of};
use crate::recording::{
    all_recordable, duplicate_points, duplicate_queries, extend_queries, family_points,
    family_queries, Origin, Recorded, Table,
};
use crate::scoring::topic::{all_topics, topic_names, Topic};
use crate::text::{decimal, same_text};
use std::collections::BTreeMap;
use vstd::prelude::*;
use vstd::utf8::encode_utf8;

verus! {

/// How many attestation subnets there are.
pub const ATTESTATION_SUBNETS: u64 = 4;

/// How many sync committee subnets there are.
pub const SYNC_SUBNETS: u64 = 4;

/// How many slots an epoch has.
pub const SLOTS_PER_EPOCH: u64 = 2;

/// How many seconds a slot lasts.
pub const SLOT_DURATION: u64 = 12;

/// Numbers, separated by commas.
pub open spec fn json_numbers(numbers: Seq<u8>) -> Seq<char>
    decreases numbers.len(),
{
    if numbers.len() == 0 {
        Seq::empty()
    } else if numbers.len() == 1 {
        decimal(numbers[0] as nat)
    } else {
        json_numbers(numbers.drop_last()) + ","@ + decimal(numbers.last() as nat)
    }
}

/// A JSON array of a validator and the bytes of a payload.
pub open spec fn json_message(validator: u64, payload: Seq<u8>) -> Seq<char> {
    "["@ + decimal(validator as nat) + ",["@ + json_numbers(payload) + "]]"@
}

/// `serde_json::to_vec` of a pair of a number and bytes.
///
/// Trusted: the result is the UTF-8 form of a JSON array of the number and an array of the bytes,
/// without any white space.
#[verifier::external_body]
fn json_pair(validator: u64, payload: &Vec<u8>) -> (json: Vec<u8>)
    ensures
        json@ == encode_utf8(json_message(validator, payload@)),
{
    serde_json::to_vec(&(validator, payload)).expect("json serialization never fails")
}

/// The topic that a message goes to, and the validator that sends it.
pub open spec fn destination(message: Message) -> (Topic, u64) {
    match message {
        Message::BeaconBlock { proposer, slot } => (Topic::Blocks, proposer),
        Message::AggregateAndProofAttestation { aggregator, subnet, slot } => (
            Topic::Aggregates(subnet),
            aggregator,
        ),
        Message::Attestation { attester, subnet, slot } => (Topic::Attestations(subnet), attester),
        Message::SignedContributionAndProof { validator, subnet, slot } => (
            Topic::SignedContributionAndProof(subnet),
            validator,
        ),
        Message::SyncCommitteeMessage { validator, subnet, slot } => (
            Topic::SyncMessages(subnet),
            validator,
        ),
    }
}

/// The topic that a message goes to, and the validator that sends it.
pub fn route(message: &Message) -> (routed: (Topic, u64))
    ensures
        routed == destination(*message),
{
    match message {
        Message::BeaconBlock { proposer, .. } => (Topic::Blocks, *proposer),
        Message::AggregateAndProofAttestation { aggregator, subnet, .. } => (
            Topic::Aggregates(*subnet),
            *aggregator,
        ),
        Message::Attestation { attester, subnet, .. } => (
            Topic::Attestations(*subnet),
            *attester,
        ),
        Message::SignedContributionAndProof { validator, subnet, .. } => (
            Topic::SignedContributionAndProof(*subnet),
            *validator,
        ),
        Message::SyncCommitteeMessage { validator, subnet, .. } => (
            Topic::SyncMessages(*subnet),
            *validator,
        ),
    }
}

/// How gossipsub is set up. Times are in seconds.
#[derive(Clone, Copy, Debug)]
pub struct GossipsubSettings {
    pub max_transmit_size: usize,
    pub prune_backoff: u64,
    pub mesh_n: usize,
    pub mesh_n_low: usize,
    pub mesh_n_high: usize,
    pub gossip_lazy: usize,
    pub fanout_ttl: u64,
    pub history_length: usize,
    pub max_messages_per_rpc: usize,
    pub history_gossip: usize,
    pub duplicate_cache_time: u64,
    pub allow_self_origin: bool,
}

/// How gossipsub is set up. Duplicates are remembered for an epoch and one second more.
pub fn gossipsub_settings() -> (settings: GossipsubSettings)
    ensures
        settings == (GossipsubSettings {
            max_transmit_size: 10485760,
            prune_backoff: 60,
            mesh_n: 8,
            mesh_n_low: 4,
            mesh_n_high: 12,
            gossip_lazy: 6,
            fanout_ttl: 60,
            history_length: 12,
            max_messages_per_rpc: 500,
            history_gossip: 3,
            duplicate_cache_time: (SLOT_DURATION * SLOTS_PER_EPOCH + 1) as u64,
            allow_self_origin: true,
        }),
{
    GossipsubSettings {
        max_transmit_size: 10 * 1_048_576,
        prune_backoff: 60,
        mesh_n: 8,
        mesh_n_low: 4,
        mesh_n_high: 12,
        gossip_lazy: 6,
        fanout_ttl: 60,
        history_length: 12,
        max_messages_per_rpc: 500,
        history_gossip: 3,
        duplicate_cache_time: SLOT_DURATION * SLOTS_PER_EPOCH + 1,
        allow_self_origin: true,
    }
}

/// How the messages of the validators of a network are generated.
pub fn generator_settings(params: &Params) -> (settings: GeneratorSettings)
    ensures
        settings == (GeneratorSettings {
            genesis_slot: 0,
            genesis_duration: 0,
            slot_duration: SLOT_DURATION,
            slots_per_epoch: SLOTS_PER_EPOCH,
            sync_subnet_size: 2,
            sync_committee_subnets: SYNC_SUBNETS,
            total_validators: params@.total_validators as u64,
            target_aggregators: 14,
            attestation_subnets: ATTESTATION_SUBNETS,
        }),
{
    GeneratorSettings {
        genesis_slot: 0,
        genesis_duration: 0,
        slot_duration: SLOT_DURATION,
        slots_per_epoch: SLOTS_PER_EPOCH,
        sync_subnet_size: 2,
        sync_committee_subnets: SYNC_SUBNETS,
        total_validators: params.total_validators() as u64,
        target_aggregators: 14,
        attestation_subnets: ATTESTATION_SUBNETS,
    }
}

/// The metrics of gossipsub.
pub struct Metrics {}

impl Table for Metrics {
    open spec fn recorded(name: Seq<char>) -> Option<Recorded> {
        if name == "topic_subscription_status"@ {
            Some(Recorded::Status)
        } else if name == "topic_peers_counts"@ || name == "mesh_peer_counts"@ {
            Some(Recorded::Count)
        } else if name == "peers_per_protocol"@ {
            Some(Recorded::Peers)
        } else if name == "score_per_mesh"@ || name == "heartbeat_duration"@ {
            Some(Recorded::Histogram)
        } else if name == "invalid_messages_per_topic"@ || name == "accepted_messages_per_topic"@
            || name == "ignored_messages_per_topic"@ || name == "rejected_messages_per_topic"@
            || name == "mesh_peer_inclusion_events"@ || name == "mesh_peer_churn_events"@ || name
            == "topic_msg_sent_counts"@ || name == "topic_msg_published"@ || name
            == "topic_msg_sent_bytes"@ || name == "topic_msg_recv_counts_unfiltered"@ || name
            == "topic_msg_recv_counts"@ || name == "topic_msg_recv_bytes"@ || name
            == "scoring_penalties"@ || name == "topic_iwant_msgs"@ || name == "memcache_misses"@ {
            Some(Recorded::Counter)
        } else {
            None
        }
    }

    fn recorded_as(name: &str) -> (recorded: Option<Recorded>) {
        if same_text(name, "topic_subscription_status") {
            Some(Recorded::Status)
        } else if same_text(name, "topic_peers_counts") || same_text(name, "mesh_peer_counts") {
            Some(Recorded::Count)
        } else if same_text(name, "peers_per_protocol") {
            Some(Recorded::Peers)
        } else if same_text(name, "score_per_mesh") || same_text(name, "heartbeat_duration") {
            Some(Recorded::Histogram)
        } else if same_text(name, "invalid_messages_per_topic") || same_text(
            name,
            "accepted_messages_per_topic",
        ) || same_text(name, "ignored_messages_per_topic") || same_text(
            name,
            "rejected_messages_per_topic",
        ) || same_text(name, "mesh_peer_inclusion_events") || same_text(
            name,
            "mesh_peer_churn_events",
        ) || same_text(name, "topic_msg_sent_counts") || same_text(name, "topic_msg_published")
            || same_text(name, "topic_msg_sent_bytes") || same_text(
            name,
            "topic_msg_recv_counts_unfiltered",
        ) || same_text(name, "topic_msg_recv_counts") || same_text(name, "topic_msg_recv_bytes")
            || same_text(name, "scoring_penalties") || same_text(name, "topic_iwant_msgs")
            || same_text(name, "memcache_misses") {
            Some(Recorded::Counter)
        } else {
            None
        }
    }
}

/// The two message counters that are joined are recorded as counters.
proof fn lemma_message_counters()
    ensures
        Metrics::recorded("topic_msg_recv_counts_unfiltered"@) == Some(Recorded::Counter),
        Metrics::recorded("topic_msg_recv_counts"@) == Some(Recorded::Counter),
{
    reveal_strlit("topic_msg_recv_counts_unfiltered");
    reveal_strlit("topic_msg_recv_counts");
    reveal_strlit("topic_subscription_status");
    reveal_strlit("topic_peers_counts");
    reveal_strlit("mesh_peer_counts");
    reveal_strlit("peers_per_protocol");
    reveal_strlit("score_per_mesh");
    reveal_strlit("heartbeat_duration");
    let unfiltered = "topic_msg_recv_counts_unfiltered"@;
    let filtered = "topic_msg_recv_counts"@;
    assert(filtered.len() == 21);
    assert(unfiltered.len() == 32);
}

/// Queries for all metrics of a node, and for the duplicates among the messages it received.
pub fn record_metrics(info: &RecordMetricsInfo) -> (queries: Vec<WriteQuery>)
    requires
        all_recordable::<Metrics>(info.metrics@),
    ensures
        query_views(queries@) == family_points::<Metrics>(info.origin(), info.metrics@)
            + duplicate_points(info.origin(), info.metrics@),
{
    let shared: Origin = make_origin(
        info.current,
        info.node_id,
        &info.instance_info,
        info.run_id.as_str(),
    );
    let mut queries: Vec<WriteQuery> = family_queries::<Metrics>(&shared, &info.metrics);
    proof {
        lemma_message_counters();
    }
    extend_queries(&mut queries, duplicate_queries::<Metrics>(&shared, &info.metrics));
    queries
}

/// What happens during a run.
#[derive(Debug)]
pub enum SimEvent {
    /// The run time is over.
    Deadline,
    /// A validator sends a message.
    Generated { message: Message, payload: Vec<u8> },
    /// The metrics are due.
    MetricsDue,
    /// Something happened on the transport.
    Swarm,
}

/// What is to be done about an event.
#[derive(Debug)]
pub enum SimAction {
    /// End the run.
    Stop,
    /// Publish a message.
    Publish { topic: String, data: Vec<u8> },
    /// Record the metrics.
    RecordMetrics,
    /// Go on.
    Nothing,
}

/// A node of the simulation.
#[derive(Debug)]
pub struct Network {
    /// The id of this node, local to the run.
    pub node_id: usize,
    /// How to reach this node.
    pub instance_info: InstanceInfo,
    /// How to reach the other nodes, by their ids.
    pub participants: BTreeMap<usize, InstanceInfo>,
}

impl Network {
    /// What is needed to record the metrics of this node, so many seconds and nanoseconds after the
    /// start of the run. `None` means that no date can hold that time.
    pub fn record_metrics_info(
        &self,
        run_id: String,
        metrics: Vec<MetricFamily>,
        start_time: Timestamp,
        elapsed: (u64, u32),
    ) -> (info: Option<RecordMetricsInfo>)
        requires
            elapsed.1 < 1_000_000_000,
        ensures
            is_metrics_info(
                info,
                run_id,
                metrics,
                self.node_id,
                self.instance_info,
                start_time,
                elapsed,
            ),
    {
        make_metrics_info(
            run_id,
            metrics,
            self.node_id,
            &self.instance_info,
            start_time,
            elapsed,
        )
    }

    /// The infos of the nodes to dial, in dialing order.
    pub fn dial_peers(&self, outbound_peers: &BTreeMap<usize, Vec<usize>>) -> (targets: Vec<
        &InstanceInfo,
    >)
        requires
            all_take_part(self.participants@, peers_of(outbound_peers@, self.node_id)),
        ensures
            targets@.len() == peers_of(outbound_peers@, self.node_id).len(),
            forall|i: int|
                0 <= i < targets@.len() ==> *(#[trigger] targets@[i])
                    == self.participants@[peers_of(outbound_peers@, self.node_id)[i]],
    {
        dial_targets(&self.participants, &outbound_of(outbound_peers, self.node_id))
    }

    /// The name of the topic and the message to publish for a payload of a validator.
    pub fn publish(&self, topic: Topic, validator: u64, payload: &Vec<u8>) -> (message: (
        String,
        Vec<u8>,
    ))
        ensures
            message.0@ == topic.name(),
            message.1@ == encode_utf8(json_message(validator, payload@)),
    {
        (topic.to_text(), json_pair(validator, payload))
    }

    /// The topics to subscribe to, in this order.
    pub fn subscribe_topics(&self) -> (names: Vec<String>)
        ensures
            names@.len() == all_topics(ATTESTATION_SUBNETS, SYNC_SUBNETS).len(),
            forall|i: int|
                0 <= i < names@.len() ==> (#[trigger] names@[i])@ == all_topics(
                    ATTESTATION_SUBNETS,
                    SYNC_SUBNETS,
                )[i].name(),
    {
        topic_names(ATTESTATION_SUBNETS, SYNC_SUBNETS)
    }

    /// Decides what is to be done about an event.
    pub fn on_event(&self, event: SimEvent) -> (action: SimAction)
        ensures
            match event {
                SimEvent::Deadline => action is Stop,
                SimEvent::Generated { message, payload } => {
                    &&& action is Publish
                    &&& action->Publish_topic@ == destination(message).0.name()
                    &&& action->Publish_data@ == encode_utf8(
                        json_message(destination(message).1, payload@),
                    )
                },
                SimEvent::MetricsDue => action is RecordMetrics,
                SimEvent::Swarm => action is Nothing,
            },
    {
        match event {
            SimEvent::Deadline => SimAction::Stop,
            SimEvent::Generated { message, payload } => {
                let (topic, validator): (Topic, u64) = route(&message);
                let (name, data): (String, Vec<u8>) = self.publish(topic, validator, &payload);
                SimAction::Publish { topic: name, data }
            },
            SimEvent::MetricsDue => SimAction::RecordMetrics,
            SimEvent::Swarm => SimAction::Nothing,
        }
    }
}

} // verus!
