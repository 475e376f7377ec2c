//! A node that gossips blocks.

use super::utils::{block_point, block_queries, make_origin, origin, Dates};
use super::InstanceInfo;
use crate::eth_consensus::network::run::GeneratorSettings;
use crate::eth_consensus::Message;
use crate::gen_topology::Params;
use crate::influx::{query_views, QueryView, Timestamp, WriteQuery};
use crate::openmetrics::MetricFamily;
use crate::ordered::in_order_u64;
use crate::participants::{all_take_part, dial_targets, outbound_of, peers_of};
use crate::recording::{all_recordable, family_points, family_queries, Recorded, Table};
use crate::scoring::received::{note, noted, per_epoch, starts_known, with_value, PerEpoch};
use crate::scoring::topic::Topic;
use crate::text::same_text;
use std::collections::BTreeMap;
use vstd::prelude::*;

verus! {

/// How many attestation subnets there are.
pub const ATTESTATION_SUBNETS: u64 = 4;

/// How many sync committee subnets there are.
pub const SYNC_SUBNETS: u64 = 4;

/// How many slots an epoch has.
pub const SLOTS_PER_EPOCH: u64 = 2;

/// How many seconds a slot lasts.
pub const SLOT_DURATION: u64 = 6;

/// How many bytes a message may have.
pub const MAX_TRANSMIT_SIZE: usize = 10485760;

/// How many seconds pass between two records of the scores of the peers.
pub const SCORE_INTERVAL: u64 = 1;

/// How many seconds a pruned peer has to wait.
pub const PRUNE_BACKOFF: u64 = 60;

/// How long gossipsub remembers messages, in heartbeats.
pub const HISTORY_LENGTH: usize = 12;

/// The metrics of gossipsub, of which only the scoring penalties are recorded.
pub struct Metrics {}

impl Table for Metrics {
    open spec fn recorded(name: Seq<char>) -> Option<Recorded> {
        if name == "scoring_penalties"@ {
            Some(Recorded::Counter)
        } else {
            Some(Recorded::Skipped)
        }
    }

    fn recorded_as(name: &str) -> (recorded: Option<Recorded>) {
        if same_text(name, "scoring_penalties") {
            Some(Recorded::Counter)
        } else {
            Some(Recorded::Skipped)
        }
    }
}

/// Queries for the metrics of a node. All nodes use the start of the test as time, so that their
/// metrics are aligned.
pub fn record_metrics(
    test_start_time: Timestamp,
    instance_info: &InstanceInfo,
    run_id: &str,
    families: &Vec<MetricFamily>,
) -> (queries: Vec<WriteQuery>)
    requires
        all_recordable::<Metrics>(families@),
    ensures
        query_views(queries@) == family_points::<Metrics>(
            origin(test_start_time, *instance_info, run_id@),
            families@,
        ),
{
    family_queries::<Metrics>(&make_origin(test_start_time, instance_info, run_id), families)
}

/// How the messages of the validators of a network are generated.
pub fn generator_settings(params: &Params) -> (settings: GeneratorSettings)
    ensures
        settings == (GeneratorSettings {
            genesis_slot: 0,
            genesis_duration: 0,
            slot_duration: SLOT_DURATION,
            slots_per_epoch: SLOTS_PER_EPOCH,
            sync_subnet_size: 2,
            sync_committee_subnets: SYNC_SUBNETS,
            total_validators: params@.total_validators as u64,
            target_aggregators: 14,
            attestation_subnets: ATTESTATION_SUBNETS,
        }),
{
    GeneratorSettings {
        genesis_slot: 0,
        genesis_duration: 0,
        slot_duration: SLOT_DURATION,
        slots_per_epoch: SLOTS_PER_EPOCH,
        sync_subnet_size: 2,
        sync_committee_subnets: SYNC_SUBNETS,
        total_validators: params.total_validators() as u64,
        target_aggregators: 14,
        attestation_subnets: ATTESTATION_SUBNETS,
    }
}

/// What gossipsub tells.
#[derive(Debug)]
pub enum GossipsubEvent {
    /// A block was received.
    Block { slot: u64 },
    /// Another message was received, or something happened that needs no answer.
    Other,
}

/// What happens during a run.
#[derive(Debug)]
pub enum SimEvent {
    /// The run time is over.
    Deadline,
    /// A validator sends a message.
    Generated(Message),
    /// The scores are due.
    ScoresDue,
    /// Gossipsub tells something.
    Gossipsub(GossipsubEvent),
    /// Something else happened on the transport.
    Other,
}

/// What is to be done about an event.
#[derive(Debug)]
pub enum SimAction {
    /// End the run and record what was received.
    Stop,
    /// Publish a message of a validator for a slot.
    Publish { topic: String, validator: u64, slot: u64 },
    /// Go on.
    Nothing,
}

/// The data points of the received blocks, from the earliest epoch to the latest. The time of each is
/// the start of the epoch.
pub open spec fn dated_block_points(
    starts: Map<u64, Timestamp>,
    instance_info: InstanceInfo,
    run_id: Seq<char>,
    received: Map<u64, Set<u64>>,
) -> Seq<QueryView> {
    in_order_u64(received.dom()).map_values(
        |epoch: u64|
            block_point(starts[epoch], instance_info, run_id, epoch, received[epoch].len()),
    )
}

/// A node of the simulation.
#[derive(Debug)]
pub struct Network {
    pub node_id: usize,
    pub instance_info: InstanceInfo,
    pub participants: BTreeMap<usize, InstanceInfo>,
    /// The slots of the received blocks, by epoch.
    pub received_beacon_blocks: PerEpoch,
}

impl Network {
    /// A node that has not received anything yet.
    pub fn new(
        node_id: usize,
        instance_info: InstanceInfo,
        participants: BTreeMap<usize, InstanceInfo>,
    ) -> (network: Self)
        ensures
            network.node_id == node_id,
            network.instance_info == instance_info,
            network.participants == participants,
            per_epoch(network.received_beacon_blocks@) == Map::<u64, Set<u64>>::empty(),
    {
        let received: PerEpoch = BTreeMap::new();
        assert(per_epoch(received@) =~= Map::empty());
        Network { node_id, instance_info, participants, received_beacon_blocks: received }
    }

    /// The infos of the nodes to dial, in dialing order.
    pub fn dial_peers(&self, outbound_peers: &BTreeMap<usize, Vec<usize>>) -> (targets: Vec<
        &InstanceInfo,
    >)
        requires
            all_take_part(self.participants@, peers_of(outbound_peers@, self.node_id)),
        ensures
            targets@.len() == peers_of(outbound_peers@, self.node_id).len(),
            forall|i: int|
                0 <= i < targets@.len() ==> *(#[trigger] targets@[i])
                    == self.participants@[peers_of(outbound_peers@, self.node_id)[i]],
    {
        dial_targets(&self.participants, &outbound_of(outbound_peers, self.node_id))
    }

    /// The topics to subscribe to: blocks only.
    pub fn subscribe_topics(&self) -> (names: Vec<String>)
        ensures
            names@.len() == 1,
            names@[0]@ == Topic::Blocks.name(),
    {
        let mut names: Vec<String> = Vec::new();
        names.push(Topic::Blocks.to_text());
        names
    }

    /// Notes a received block. Tells whether a block of its slot was received before.
    pub fn handle_gossipsub_event(&mut self, event: GossipsubEvent) -> (repeated: bool)
        ensures
            *final(self) == (Network {
                received_beacon_blocks: final(self).received_beacon_blocks,
                ..*old(self)
            }),
            match event {
                GossipsubEvent::Block { slot } => {
                    &&& per_epoch(final(self).received_beacon_blocks@) == with_value(
                        per_epoch(old(self).received_beacon_blocks@),
                        slot / SLOTS_PER_EPOCH,
                        slot,
                    )
                    &&& repeated == noted(
                        per_epoch(old(self).received_beacon_blocks@),
                        slot / SLOTS_PER_EPOCH,
                        slot,
                    )
                },
                GossipsubEvent::Other => !repeated && *final(self) == *old(self),
            },
    {
        match event {
            GossipsubEvent::Block { slot } => !note(
                &mut self.received_beacon_blocks,
                slot / SLOTS_PER_EPOCH,
                slot,
            ),
            GossipsubEvent::Other => false,
        }
    }

    /// Decides what is to be done about an event. Of the messages of validators only blocks are
    /// published.
    pub fn on_event(&mut self, event: SimEvent) -> (action: SimAction)
        ensures
            *final(self) == (Network {
                received_beacon_blocks: final(self).received_beacon_blocks,
                ..*old(self)
            }),
            per_epoch(final(self).received_beacon_blocks@) == match event {
                SimEvent::Gossipsub(GossipsubEvent::Block { slot }) => with_value(
                    per_epoch(old(self).received_beacon_blocks@),
                    slot / SLOTS_PER_EPOCH,
                    slot,
                ),
                _ => per_epoch(old(self).received_beacon_blocks@),
            },
            match event {
                SimEvent::Deadline => action is Stop,
                SimEvent::Generated(Message::BeaconBlock { proposer, slot }) => {
                    &&& action is Publish
                    &&& action->Publish_topic@ == Topic::Blocks.name()
                    &&& action->Publish_validator == proposer
                    &&& action->Publish_slot == slot
                },
                _ => action is Nothing,
            },
    {
        match event {
            SimEvent::Deadline => SimAction::Stop,
            SimEvent::Generated(message) => match message {
                Message::BeaconBlock { proposer, slot } => SimAction::Publish {
                    topic: Topic::Blocks.to_text(),
                    validator: proposer,
                    slot,
                },
                _ => SimAction::Nothing,
            },
            SimEvent::Gossipsub(told) => {
                self.handle_gossipsub_event(told);
                SimAction::Nothing
            },
            SimEvent::ScoresDue | SimEvent::Other => SimAction::Nothing,
        }
    }

    /// Queries for the number of blocks received in each epoch.
    pub fn record_received_beacon_blocks(
        &self,
        run_id: &str,
        starts: &BTreeMap<u64, Timestamp>,
    ) -> (queries: Vec<WriteQuery>)
        requires
            starts_known(starts@, per_epoch(self.received_beacon_blocks@)),
        ensures
            query_views(queries@) == dated_block_points(
                starts@,
                self.instance_info,
                run_id@,
                per_epoch(self.received_beacon_blocks@),
            ),
    {
        block_queries(
            &Dates::Starts(starts),
            &self.instance_info,
            &self.received_beacon_blocks,
            run_id,
        )
    }
}

} // verus!
