//! Setting up and running the simulation.

use super::{delay_limit, destination, published, route, Network, SwarmEvent, Topic, Validation};
use crate::eth_consensus::Message;
use crate::gen_topology::{Params, ParamsView};
use crate::instance_params::{
    flag_at, holds_numbers, make_topology_params, number_at, parsed_params,
    run_and_topology_are_read_by_name, topology_params, InstanceParams, ParamMap,
};
use crate::text::{numbers_are_read_in_decimal, numeral_value, unsigned};
use vstd::prelude::*;

verus! {

/// How many attestation subnets there are.
pub const ATTESTATION_SUBNETS: u64 = 4;

/// How many sync committee subnets there are.
pub const SYNC_SUBNETS: u64 = 4;

/// How many aggregators a subnet should have.
pub const TARGET_AGGREGATORS: u64 = 14;

/// How many slots an epoch has.
pub const SLOTS_PER_EPOCH: u64 = 2;

/// How many seconds a slot lasts.
pub const SLOT_DURATION: u64 = 12;

/// What a run is started with.
#[derive(Debug)]
pub struct RunSettings {
    /// How long the run lasts, in seconds.
    pub run: u64,
    /// The topology of the network.
    pub params: Params,
    /// Whether the choking extension is used.
    pub episub: bool,
}

/// What a run is started with: run time, topology and whether the choking extension is used.
pub open spec fn parsed_settings(total_nodes: nat, params: ParamMap) -> Result<
    (nat, ParamsView, bool),
    Seq<char>,
> {
    let none = ""@;
    let seed = number_at(params, "seed"@, "seed is not specified."@, none, u64::MAX as nat);
    let no_val = number_at(
        params,
        "no_val_percentage"@,
        "`no_val_percentage` is not specified"@,
        none,
        usize::MAX as nat,
    );
    let validators = number_at(
        params,
        "total_validators"@,
        "`total_validators` not specified"@,
        "Error reading total_validators "@,
        usize::MAX as nat,
    );
    let least = number_at(
        params,
        "min_peers_per_node"@,
        "`min_peers_per_node` not specified"@,
        none,
        usize::MAX as nat,
    );
    let most = number_at(
        params,
        "max_peers_per_node_inclusive"@,
        "`max_peers_per_node_inclusive` not specified"@,
        none,
        usize::MAX as nat,
    );
    let run = number_at(params, "run"@, "run is not specified."@, none, u64::MAX as nat);
    let episub = flag_at(params, "episub"@, "episub is not specified."@);
    if seed is Err {
        Err(seed->Err_0)
    } else if no_val is Err {
        Err(no_val->Err_0)
    } else if validators is Err {
        Err(validators->Err_0)
    } else if least is Err {
        Err(least->Err_0)
    } else if most is Err {
        Err(most->Err_0)
    } else if run is Err {
        Err(run->Err_0)
    } else if episub is Err {
        Err(episub->Err_0)
    } else {
        match topology_params(
            total_nodes,
            seed->Ok_0,
            no_val->Ok_0,
            validators->Ok_0,
            least->Ok_0,
            most->Ok_0,
        ) {
            Ok(topology) => Ok((run->Ok_0, topology, episub->Ok_0)),
            Err(fault) => Err(fault),
        }
    }
}

/// Reads what a run is started with.
pub fn parse_params(instance_count: usize, instance_params: &InstanceParams) -> (parsed: Result<
    RunSettings,
    String,
>)
    ensures
        match parsed {
            Ok(settings) => parsed_settings(instance_count as nat, instance_params@) == Ok::<
                (nat, ParamsView, bool),
                Seq<char>,
            >((settings.run as nat, settings.params@, settings.episub))
                && settings.params@.valid(),
            Err(e) => parsed_settings(instance_count as nat, instance_params@) == Err::<
                (nat, ParamsView, bool),
                Seq<char>,
            >(e@),
        },
{
    let seed: u64 = instance_params.number("seed", "seed is not specified.", "", u64::MAX)?;
    let no_val_percentage: usize = instance_params.size(
        "no_val_percentage",
        "`no_val_percentage` is not specified",
        "",
    )?;
    let total_validators: usize = instance_params.size(
        "total_validators",
        "`total_validators` not specified",
        "Error reading total_validators ",
    )?;
    let min_peers_per_node: usize = instance_params.size(
        "min_peers_per_node",
        "`min_peers_per_node` not specified",
        "",
    )?;
    let max_peers_per_node_inclusive: usize = instance_params.size(
        "max_peers_per_node_inclusive",
        "`max_peers_per_node_inclusive` not specified",
        "",
    )?;
    let run: u64 = instance_params.number("run", "run is not specified.", "", u64::MAX)?;
    let episub: bool = instance_params.flag("episub", "episub is not specified.")?;
    let params: Params = make_topology_params(
        instance_count,
        seed,
        no_val_percentage,
        total_validators,
        min_peers_per_node,
        max_peers_per_node_inclusive,
    )?;
    Ok(RunSettings { run, params, episub })
}

/// How gossipsub is set up. Times are in seconds.
#[derive(Clone, Copy, Debug)]
pub struct GossipsubSettings {
    pub max_transmit_size: usize,
    pub heartbeat_interval: u64,
    pub prune_backoff: u64,
    pub mesh_n: usize,
    pub mesh_outbound_min: usize,
    pub mesh_n_low: usize,
    pub mesh_n_high: usize,
    pub gossip_lazy: usize,
    pub fanout_ttl: u64,
    pub history_length: usize,
    pub max_messages_per_rpc: usize,
    pub history_gossip: usize,
    pub validate_messages: bool,
    pub duplicate_cache_time: u64,
    pub allow_self_origin: bool,
    pub episub_heartbeat_ticks: u64,
    /// How many messages a peer must have sent before it can be choked, where the choking extension
    /// is used.
    pub min_choke_message_count: Option<u64>,
}

/// How gossipsub is set up. Duplicates are remembered for an epoch and one second more.
pub open spec fn gossipsub_settings(use_episub: bool) -> GossipsubSettings {
    GossipsubSettings {
        max_transmit_size: 10485760,
        heartbeat_interval: 1,
        prune_backoff: 60,
        mesh_n: 2,
        mesh_outbound_min: 1,
        mesh_n_low: 1,
        mesh_n_high: 5,
        gossip_lazy: 6,
        fanout_ttl: 60,
        history_length: 12,
        max_messages_per_rpc: 500,
        history_gossip: 3,
        validate_messages: true,
        duplicate_cache_time: (SLOT_DURATION * SLOTS_PER_EPOCH + 1) as u64,
        allow_self_origin: true,
        episub_heartbeat_ticks: 24,
        min_choke_message_count: if use_episub {
            Some(2)
        } else {
            None
        },
    }
}

/// How gossipsub is set up.
pub fn setup_gossipsub(use_episub: bool) -> (settings: GossipsubSettings)
    ensures
        settings == gossipsub_settings(use_episub),
{
    GossipsubSettings {
        max_transmit_size: 10 * 1_048_576,
        heartbeat_interval: 1,
        prune_backoff: 60,
        mesh_n: 2,
        mesh_outbound_min: 1,
        mesh_n_low: 1,
        mesh_n_high: 5,
        gossip_lazy: 6,
        fanout_ttl: 60,
        history_length: 12,
        max_messages_per_rpc: 500,
        history_gossip: 3,
        validate_messages: true,
        duplicate_cache_time: SLOT_DURATION * SLOTS_PER_EPOCH + 1,
        allow_self_origin: true,
        episub_heartbeat_ticks: 24,
        min_choke_message_count: if use_episub {
            Some(2)
        } else {
            None
        },
    }
}

/// How the messages of the validators are generated. Times are in seconds.
#[derive(Clone, Copy, Debug)]
pub struct GeneratorSettings {
    pub genesis_slot: u64,
    pub genesis_duration: u64,
    pub slot_duration: u64,
    pub slots_per_epoch: u64,
    pub sync_subnet_size: u64,
    pub sync_committee_subnets: u64,
    pub total_validators: u64,
    pub target_aggregators: u64,
    pub attestation_subnets: u64,
}

/// How the messages of the validators of a network are generated.
pub fn generator_settings(params: &Params) -> (settings: GeneratorSettings)
    ensures
        settings == (GeneratorSettings {
            genesis_slot: 0,
            genesis_duration: 0,
            slot_duration: SLOT_DURATION,
            slots_per_epoch: SLOTS_PER_EPOCH,
            sync_subnet_size: SYNC_SUBNETS,
            sync_committee_subnets: SYNC_SUBNETS,
            total_validators: params@.total_validators as u64,
            target_aggregators: TARGET_AGGREGATORS,
            attestation_subnets: ATTESTATION_SUBNETS,
        }),
{
    GeneratorSettings {
        genesis_slot: 0,
        genesis_duration: 0,
        slot_duration: SLOT_DURATION,
        slots_per_epoch: SLOTS_PER_EPOCH,
        sync_subnet_size: SYNC_SUBNETS,
        sync_committee_subnets: SYNC_SUBNETS,
        total_validators: params.total_validators() as u64,
        target_aggregators: TARGET_AGGREGATORS,
        attestation_subnets: ATTESTATION_SUBNETS,
    }
}

/// How many seconds pass between two recordings of the metrics: a third of a slot.
pub fn metrics_interval() -> (seconds: u64)
    ensures
        3 * seconds == SLOT_DURATION,
{
    SLOT_DURATION / 3
}

/// Whether a run of `run` seconds is over after some seconds and nanoseconds.
pub fn is_over(elapsed: u64, nanos: u32, run: u64) -> (over: bool)
    ensures
        over == (elapsed * 1_000_000_000 + nanos > run * 1_000_000_000),
{
    elapsed as u128 * 1_000_000_000 + nanos as u128 > run as u128 * 1_000_000_000
}

/// What happens during a run.
#[derive(Debug)]
pub enum SimEvent {
    /// The run time is over.
    Deadline,
    /// A validator sends a message.
    Generated { message: Message, payload: Vec<u8> },
    /// The metrics are due.
    MetricsDue,
    /// A recording was written.
    Written,
    /// Something happened on the transport.
    Swarm(SwarmEvent),
    /// The delay of a message is over.
    ValidationDue { message_id: Vec<u8>, peer_id: String },
}

/// What is to be done about an event.
#[derive(Debug)]
pub enum SimAction {
    /// End the run.
    Stop,
    /// Publish a message.
    Publish { topic: String, data: Vec<u8> },
    /// Record the metrics.
    RecordMetrics,
    /// Accept a message after a delay.
    Delay(Validation),
    /// Accept a message.
    Accept { message_id: Vec<u8>, peer_id: String },
    /// Go on.
    Nothing,
}

impl Network {
    /// Decides what is to be done about an event.
    pub fn on_event(&self, event: SimEvent) -> (action: SimAction)
        ensures
            match event {
                SimEvent::Deadline => action is Stop,
                SimEvent::Generated { message, payload } => {
                    &&& action is Publish
                    &&& action->Publish_topic@ == destination(message).0.name()
                    &&& action->Publish_data@ == published(destination(message).1, payload@)
                },
                SimEvent::MetricsDue => action is RecordMetrics,
                SimEvent::Written => action is Nothing,
                SimEvent::Swarm(
                    SwarmEvent::Message { propagation_source, message_id, topic, size },
                ) => {
                    &&& action is Delay
                    &&& action->Delay_0.message_id == message_id
                    &&& action->Delay_0.peer_id == propagation_source
                    &&& action->Delay_0.delay < delay_limit(size)
                },
                SimEvent::Swarm(SwarmEvent::Other) => action is Nothing,
                SimEvent::ValidationDue { message_id, peer_id } => action == (SimAction::Accept {
                    message_id,
                    peer_id,
                }),
            },
    {
        match event {
            SimEvent::Deadline => SimAction::Stop,
            SimEvent::Generated { message, payload } => {
                let (topic, validator): (Topic, u64) = route(&message);
                let (name, data): (String, Vec<u8>) = self.publish(topic, validator, payload);
                SimAction::Publish { topic: name, data }
            },
            SimEvent::MetricsDue => SimAction::RecordMetrics,
            SimEvent::Written => SimAction::Nothing,
            SimEvent::Swarm(swarm_event) => match self.handle_swarm_event(swarm_event) {
                Some(validation) => SimAction::Delay(validation),
                None => SimAction::Nothing,
            },
            SimEvent::ValidationDue { message_id, peer_id } => SimAction::Accept {
                message_id,
                peer_id,
            },
        }
    }
}

/// Whether the six numbers of a run and its topology can be read.
pub open spec fn numbers_readable(params: ParamMap) -> bool {
    &&& number_at(params, "seed"@, ""@, ""@, u64::MAX as nat) is Ok
    &&& number_at(params, "no_val_percentage"@, ""@, ""@, usize::MAX as nat) is Ok
    &&& number_at(params, "total_validators"@, ""@, ""@, usize::MAX as nat) is Ok
    &&& number_at(params, "min_peers_per_node"@, ""@, ""@, usize::MAX as nat) is Ok
    &&& number_at(params, "max_peers_per_node_inclusive"@, ""@, ""@, usize::MAX as nat) is Ok
    &&& number_at(params, "run"@, ""@, ""@, u64::MAX as nat) is Ok
}

/// The settings of a run are the run time and the topology that every simulation reads, and the
/// choking extension, which is read behind the numbers and before the topology is checked.
pub proof fn settings_are_read_by_name(total_nodes: usize, params: ParamMap)
    ensures
        ({
            let settings = parsed_settings(total_nodes as nat, params);
            let plain = parsed_params(total_nodes as nat, params);
            let episub = flag_at(params, "episub"@, "episub is not specified."@);
            &&& settings is Ok <==> plain is Ok && episub is Ok
            &&& settings matches Ok((run, topology, choking)) ==> plain == Ok::<
                (nat, ParamsView),
                Seq<char>,
            >((run, topology)) && episub == Ok::<bool, Seq<char>>(choking)
            &&& settings matches Err(report) ==> if numbers_readable(params) && episub is Err {
                episub->Err_0 == report
            } else {
                plain == Err::<(nat, ParamsView), Seq<char>>(report)
            }
        }),
{
}

/// The settings of a run hold the numbers under their own names. Of all nodes, the percentage under
/// `no_val_percentage` run no validators.
pub proof fn settings_hold_their_numbers(total_nodes: usize, params: ParamMap)
    requires
        parsed_settings(total_nodes as nat, params) is Ok,
    ensures
        ({
            let (run, topology, episub) = parsed_settings(total_nodes as nat, params)->Ok_0;
            &&& run == numeral_value(unsigned(params["run"@].text))
            &&& holds_numbers(
                topology,
                total_nodes as nat,
                numeral_value(unsigned(params["seed"@].text)) as nat,
                numeral_value(unsigned(params["no_val_percentage"@].text)) as nat,
                numeral_value(unsigned(params["total_validators"@].text)) as nat,
                numeral_value(unsigned(params["min_peers_per_node"@].text)) as nat,
                numeral_value(unsigned(params["max_peers_per_node_inclusive"@].text)) as nat,
            )
            &&& episub == (params["episub"@].text == "true"@)
        }),
{
    settings_are_read_by_name(total_nodes, params);
    run_and_topology_are_read_by_name(total_nodes, params);
    numbers_are_read_in_decimal(params["run"@].text, u64::MAX as nat);
    numbers_are_read_in_decimal(params["seed"@].text, u64::MAX as nat);
    numbers_are_read_in_decimal(params["no_val_percentage"@].text, usize::MAX as nat);
    numbers_are_read_in_decimal(params["total_validators"@].text, usize::MAX as nat);
    numbers_are_read_in_decimal(params["min_peers_per_node"@].text, usize::MAX as nat);
    numbers_are_read_in_decimal(params["max_peers_per_node_inclusive"@].text, usize::MAX as nat);
}

/// How gossipsub is set up: messages of up to ten mebibytes, a mesh of two peers and of one to five,
/// one of them dialed, six peers for gossip, and so on. The choking extension adds a number of messages
/// before a peer is choked, and changes nothing else.
pub proof fn gossipsub_is_set_up(use_episub: bool)
    ensures
        ({
            let settings = gossipsub_settings(use_episub);
            &&& settings.max_transmit_size == 10 * 1024 * 1024
            &&& settings.heartbeat_interval == 1 && settings.prune_backoff == 60
            &&& settings.mesh_n == 2 && settings.mesh_n_low == 1 && settings.mesh_n_high == 5
            &&& settings.mesh_outbound_min == 1 && settings.gossip_lazy == 6
            &&& settings.fanout_ttl == 60 && settings.history_length == 12
            &&& settings.max_messages_per_rpc == 500 && settings.history_gossip == 3
            &&& settings.validate_messages && settings.allow_self_origin
            &&& settings.duplicate_cache_time == 12 * 2 + 1
            &&& settings.episub_heartbeat_ticks == 24
            &&& settings.min_choke_message_count is Some <==> use_episub
            &&& settings.min_choke_message_count matches Some(count) ==> count == 2
        }),
        SLOT_DURATION == 12,
        SLOTS_PER_EPOCH == 2,
        ATTESTATION_SUBNETS == 4,
        SYNC_SUBNETS == 4,
        TARGET_AGGREGATORS == 14,
{
}

} // verus!
