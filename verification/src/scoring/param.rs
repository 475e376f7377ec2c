//! The parameters of a scoring run.

use super::beacon_node::{ATTESTATION_SUBNETS, SLOT, SLOTS_PER_EPOCH, SYNC_SUBNETS};
use super::topic::Topic;
use crate::gen_topology::{Params, ParamsView};
use crate::influx::Double;
use crate::instance_params::{
    get_param, make_topology_params, param, topology_params, InstanceParams, ParamMap,
};
use crate::rng::sample_uniform;
use vstd::prelude::*;

verus! {

/// The run time in seconds and the topology parameters of a run, read one after the other.
pub open spec fn parsed_topology_params(total_nodes: nat, params: ParamMap) -> Result<
    (u64, ParamsView),
    Seq<char>,
> {
    let seed = param::<u64>(params, "seed"@);
    let no_val = param::<usize>(params, "no_val_percentage"@);
    let validators = param::<usize>(params, "total_validators"@);
    let least = param::<usize>(params, "min_peers_per_node"@);
    let most = param::<usize>(params, "max_peers_per_node_inclusive"@);
    let run = param::<u64>(params, "run"@);
    if seed is Err {
        Err(seed->Err_0)
    } else if no_val is Err {
        Err(no_val->Err_0)
    } else if validators is Err {
        Err(validators->Err_0)
    } else if least is Err {
        Err(least->Err_0)
    } else if most is Err {
        Err(most->Err_0)
    } else if run is Err {
        Err(run->Err_0)
    } else {
        match topology_params(
            total_nodes,
            seed->Ok_0 as nat,
            no_val->Ok_0 as nat,
            validators->Ok_0 as nat,
            least->Ok_0 as nat,
            most->Ok_0 as nat,
        ) {
            Ok(topology) => Ok((run->Ok_0, topology)),
            Err(fault) => Err(fault),
        }
    }
}

/// Reads the run time in seconds and the topology parameters of a run.
pub fn parse_topology_params(total_nodes: usize, instance_params: &InstanceParams) -> (parsed:
    Result<(u64, Params), String>)
    ensures
        match parsed {
            Ok((run, params)) => parsed_topology_params(total_nodes as nat, instance_params@)
                == Ok::<(u64, ParamsView), Seq<char>>((run, params@)) && params@.valid(),
            Err(e) => parsed_topology_params(total_nodes as nat, instance_params@) == Err::<
                (u64, ParamsView),
                Seq<char>,
            >(e@),
        },
{
    let seed: u64 = get_param::<u64>("seed", instance_params)?;
    let no_val_percentage: usize = get_param::<usize>("no_val_percentage", instance_params)?;
    let total_validators: usize = get_param::<usize>("total_validators", instance_params)?;
    let min_peers_per_node: usize = get_param::<usize>("min_peers_per_node", instance_params)?;
    let max_peers_per_node_inclusive: usize = get_param::<usize>(
        "max_peers_per_node_inclusive",
        instance_params,
    )?;
    let run: u64 = get_param::<u64>("run", instance_params)?;
    let params: Params = make_topology_params(
        total_nodes,
        seed,
        no_val_percentage,
        total_validators,
        min_peers_per_node,
        max_peers_per_node_inclusive,
    )?;
    Ok((run, params))
}

/// The scores below which a peer is treated worse.
#[derive(Clone, Copy, Debug)]
pub struct PeerScoreThresholds {
    pub gossip_threshold: Double,
    pub publish_threshold: Double,
    pub graylist_threshold: Double,
    pub accept_px_threshold: Double,
    pub opportunistic_graft_threshold: Double,
}

/// The score thresholds, read one after the other.
pub open spec fn parsed_thresholds(params: ParamMap) -> Result<PeerScoreThresholds, Seq<char>> {
    let gossip_threshold = param::<Double>(params, "gossip_threshold"@);
    let publish_threshold = param::<Double>(params, "publish_threshold"@);
    let graylist_threshold = param::<Double>(params, "graylist_threshold"@);
    let accept_px_threshold = param::<Double>(params, "accept_px_threshold"@);
    let opportunistic_graft_threshold = param::<Double>(params, "opportunistic_graft_threshold"@);
    if gossip_threshold is Err {
        Err(gossip_threshold->Err_0)
    } else if publish_threshold is Err {
        Err(publish_threshold->Err_0)
    } else if graylist_threshold is Err {
        Err(graylist_threshold->Err_0)
    } else if accept_px_threshold is Err {
        Err(accept_px_threshold->Err_0)
    } else if opportunistic_graft_threshold is Err {
        Err(opportunistic_graft_threshold->Err_0)
    } else {
        Ok(
            PeerScoreThresholds {
                gossip_threshold: gossip_threshold->Ok_0,
                publish_threshold: publish_threshold->Ok_0,
                graylist_threshold: graylist_threshold->Ok_0,
                accept_px_threshold: accept_px_threshold->Ok_0,
                opportunistic_graft_threshold: opportunistic_graft_threshold->Ok_0,
            },
        )
    }
}

/// Reads the score thresholds.
pub fn parse_peer_score_thresholds(instance_params: &InstanceParams) -> (parsed: Result<
    PeerScoreThresholds,
    String,
>)
    ensures
        match parsed {
            Ok(thresholds) => parsed_thresholds(instance_params@) == Ok::<
                PeerScoreThresholds,
                Seq<char>,
            >(thresholds),
            Err(e) => parsed_thresholds(instance_params@) == Err::<PeerScoreThresholds, Seq<char>>(
                e@,
            ),
        },
{
    let gossip_threshold: Double = get_param::<Double>("gossip_threshold", instance_params)?;
    let publish_threshold: Double = get_param::<Double>("publish_threshold", instance_params)?;
    let graylist_threshold: Double = get_param::<Double>("graylist_threshold", instance_params)?;
    let accept_px_threshold: Double = get_param::<Double>("accept_px_threshold", instance_params)?;
    let opportunistic_graft_threshold: Double = get_param::<Double>(
        "opportunistic_graft_threshold",
        instance_params,
    )?;
    Ok(
        PeerScoreThresholds {
            gossip_threshold,
            publish_threshold,
            graylist_threshold,
            accept_px_threshold,
            opportunistic_graft_threshold,
        },
    )
}

/// How peers are scored within a topic. Times are in seconds.
#[derive(Clone, Copy, Debug)]
pub struct TopicScoreParams {
    pub topic_weight: Double,
    pub time_in_mesh_weight: Double,
    pub time_in_mesh_quantum: u64,
    pub time_in_mesh_cap: Double,
    pub first_message_deliveries_weight: Double,
    pub first_message_deliveries_decay: Double,
    pub first_message_deliveries_cap: Double,
    pub mesh_message_deliveries_weight: Double,
    pub mesh_message_deliveries_decay: Double,
    pub mesh_message_deliveries_threshold: Double,
    pub mesh_message_deliveries_cap: Double,
    pub mesh_message_deliveries_activation: u64,
    pub mesh_message_deliveries_window: u64,
    pub mesh_failure_penalty_weight: Double,
    pub mesh_failure_penalty_decay: Double,
    pub invalid_message_deliveries_weight: Double,
    pub invalid_message_deliveries_decay: Double,
}

/// The name of a parameter of a topic.
pub open spec fn prefixed(prefix: Seq<char>, name: Seq<char>) -> Seq<char> {
    prefix + name
}

/// A time in seconds, given as a number of `unit` seconds under a name.
pub open spec fn time_param(params: ParamMap, key: Seq<char>, unit: nat) -> Result<u64, Seq<char>> {
    match param::<u64>(params, key) {
        Ok(n) => Ok((n * unit) as u64),
        Err(e) => Err(e),
    }
}

/// Whether a time, if it can be read, can be counted in seconds.
pub open spec fn time_fits(params: ParamMap, key: Seq<char>, unit: nat) -> bool {
    match param::<u64>(params, key) {
        Ok(n) => n * unit <= u64::MAX,
        Err(_) => true,
    }
}

/// Whether a number of a topic can be read.
pub open spec fn readable(prefix: Seq<char>, params: ParamMap, name: Seq<char>) -> bool {
    param::<Double>(params, prefixed(prefix, name)) is Ok
}

/// Whether all parameters of a topic before the time in the mesh can be read.
pub open spec fn readable_before_quantum(prefix: Seq<char>, params: ParamMap) -> bool {
    &&& readable(prefix, params, "_topic_weight"@)
    &&& readable(prefix, params, "_time_in_mesh_weight"@)
}

/// Whether all parameters of a topic before the activation time can be read.
pub open spec fn readable_before_activation(prefix: Seq<char>, params: ParamMap) -> bool {
    &&& readable_before_quantum(prefix, params)
    &&& param::<u64>(params, prefixed(prefix, "_time_in_mesh_quantum"@)) is Ok
    &&& readable(prefix, params, "_time_in_mesh_cap"@)
    &&& readable(prefix, params, "_first_message_deliveries_weight"@)
    &&& readable(prefix, params, "_first_message_deliveries_decay"@)
    &&& readable(prefix, params, "_first_message_deliveries_cap"@)
    &&& readable(prefix, params, "_mesh_message_deliveries_weight"@)
    &&& readable(prefix, params, "_mesh_message_deliveries_decay"@)
    &&& readable(prefix, params, "_mesh_message_deliveries_threshold"@)
    &&& readable(prefix, params, "_mesh_message_deliveries_cap"@)
}

/// Whether the times of a topic that are read can be counted in seconds. A time is read where all
/// parameters before it can be read.
pub open spec fn times_fit(prefix: Seq<char>, params: ParamMap) -> bool {
    &&& readable_before_quantum(prefix, params) ==> time_fits(
        params,
        prefixed(prefix, "_time_in_mesh_quantum"@),
        SLOT as nat,
    )
    &&& readable_before_activation(prefix, params) ==> time_fits(
        params,
        prefixed(prefix, "_mesh_message_deliveries_activation"@),
        (SLOT * SLOTS_PER_EPOCH) as nat,
    )
}

/// Reads a time in seconds, given as a number of `unit` seconds.
fn get_time(key: &str, instance_params: &InstanceParams, unit: u64) -> (time: Result<u64, String>)
    requires
        time_fits(instance_params@, key@, unit as nat),
    ensures
        match time {
            Ok(t) => time_param(instance_params@, key@, unit as nat) == Ok::<u64, Seq<char>>(t),
            Err(e) => time_param(instance_params@, key@, unit as nat) == Err::<u64, Seq<char>>(
                e@,
            ),
        },
{
    let n: u64 = get_param::<u64>(key, instance_params)?;
    Ok(n * unit)
}

/// Whether a time, if it can be read, can be counted in seconds.
fn is_time_countable(key: &str, instance_params: &InstanceParams, unit: u64) -> (fits: bool)
    ensures
        fits == time_fits(instance_params@, key@, unit as nat),
{
    match get_param::<u64>(key, instance_params) {
        Ok(n) => n.checked_mul(unit).is_some(),
        Err(_) => true,
    }
}

/// Whether a number of a topic can be read.
fn is_readable(prefix: &str, instance_params: &InstanceParams, name: &str) -> (can: bool)
    ensures
        can == readable(prefix@, instance_params@, name@),
{
    get_param::<Double>(key(prefix, name).as_str(), instance_params).is_ok()
}

/// Whether the times of a topic that are read can be counted in seconds.
pub fn are_times_countable(prefix: &str, instance_params: &InstanceParams) -> (fit: bool)
    ensures
        fit == times_fit(prefix@, instance_params@),
{
    let quantum: String = key(prefix, "_time_in_mesh_quantum");
    let before_quantum: bool = is_readable(prefix, instance_params, "_topic_weight")
        && is_readable(prefix, instance_params, "_time_in_mesh_weight");
    let before_activation: bool = before_quantum && get_param::<u64>(
        quantum.as_str(),
        instance_params,
    ).is_ok() && is_readable(
        prefix,
        instance_params,
        "_time_in_mesh_cap",
    ) && is_readable(
        prefix,
        instance_params,
        "_first_message_deliveries_weight",
    ) && is_readable(
        prefix,
        instance_params,
        "_first_message_deliveries_decay",
    ) && is_readable(
        prefix,
        instance_params,
        "_first_message_deliveries_cap",
    ) && is_readable(
        prefix,
        instance_params,
        "_mesh_message_deliveries_weight",
    ) && is_readable(
        prefix,
        instance_params,
        "_mesh_message_deliveries_decay",
    ) && is_readable(
        prefix,
        instance_params,
        "_mesh_message_deliveries_threshold",
    ) && is_readable(
        prefix,
        instance_params,
        "_mesh_message_deliveries_cap",
    );
    let quantum_fits: bool = !before_quantum || is_time_countable(
        quantum.as_str(),
        instance_params,
        SLOT,
    );
    let activation_fits: bool = !before_activation || is_time_countable(
        key(prefix, "_mesh_message_deliveries_activation").as_str(),
        instance_params,
        SLOT * SLOTS_PER_EPOCH,
    );
    quantum_fits && activation_fits
}

/// The name of a parameter of a topic.
fn key(prefix: &str, name: &str) -> (text: String)
    ensures
        text@ == prefixed(prefix@, name@),
{
    prefix.to_owned().concat(name)
}

/// The score parameters of a topic, read one after the other.
pub open spec fn parsed_topic_params(prefix: Seq<char>, params: ParamMap) -> Result<
    TopicScoreParams,
    Seq<char>,
> {
    let topic_weight = param::<Double>(params, prefixed(prefix, "_topic_weight"@));
    let time_in_mesh_weight = param::<Double>(params, prefixed(prefix, "_time_in_mesh_weight"@));
    let time_in_mesh_quantum = time_param(
        params,
        prefixed(prefix, "_time_in_mesh_quantum"@),
        SLOT as nat,
    );
    let time_in_mesh_cap = param::<Double>(params, prefixed(prefix, "_time_in_mesh_cap"@));
    let first_message_deliveries_weight = param::<Double>(
        params,
        prefixed(prefix, "_first_message_deliveries_weight"@),
    );
    let first_message_deliveries_decay = param::<Double>(
        params,
        prefixed(prefix, "_first_message_deliveries_decay"@),
    );
    let first_message_deliveries_cap = param::<Double>(
        params,
        prefixed(prefix, "_first_message_deliveries_cap"@),
    );
    let mesh_message_deliveries_weight = param::<Double>(
        params,
        prefixed(prefix, "_mesh_message_deliveries_weight"@),
    );
    let mesh_message_deliveries_decay = param::<Double>(
        params,
        prefixed(prefix, "_mesh_message_deliveries_decay"@),
    );
    let mesh_message_deliveries_threshold = param::<Double>(
        params,
        prefixed(prefix, "_mesh_message_deliveries_threshold"@),
    );
    let mesh_message_deliveries_cap = param::<Double>(
        params,
        prefixed(prefix, "_mesh_message_deliveries_cap"@),
    );
    let mesh_message_deliveries_activation = time_param(
        params,
        prefixed(prefix, "_mesh_message_deliveries_activation"@),
        (SLOT * SLOTS_PER_EPOCH) as nat,
    );
    let mesh_message_deliveries_window = param::<u64>(
        params,
        prefixed(prefix, "_mesh_message_deliveries_window"@),
    );
    let mesh_failure_penalty_weight = param::<Double>(
        params,
        prefixed(prefix, "_mesh_failure_penalty_weight"@),
    );
    let mesh_failure_penalty_decay = param::<Double>(
        params,
        prefixed(prefix, "_mesh_failure_penalty_decay"@),
    );
    let invalid_message_deliveries_weight = param::<Double>(
        params,
        prefixed(prefix, "_invalid_message_deliveries_weight"@),
    );
    let invalid_message_deliveries_decay = param::<Double>(
        params,
        prefixed(prefix, "_invalid_message_deliveries_decay"@),
    );
    if topic_weight is Err {
        Err(topic_weight->Err_0)
    } else if time_in_mesh_weight is Err {
        Err(time_in_mesh_weight->Err_0)
    } else if time_in_mesh_quantum is Err {
        Err(time_in_mesh_quantum->Err_0)
    } else if time_in_mesh_cap is Err {
        Err(time_in_mesh_cap->Err_0)
    } else if first_message_deliveries_weight is Err {
        Err(first_message_deliveries_weight->Err_0)
    } else if first_message_deliveries_decay is Err {
        Err(first_message_deliveries_decay->Err_0)
    } else if first_message_deliveries_cap is Err {
        Err(first_message_deliveries_cap->Err_0)
    } else if mesh_message_deliveries_weight is Err {
        Err(mesh_message_deliveries_weight->Err_0)
    } else if mesh_message_deliveries_decay is Err {
        Err(mesh_message_deliveries_decay->Err_0)
    } else if mesh_message_deliveries_threshold is Err {
        Err(mesh_message_deliveries_threshold->Err_0)
    } else if mesh_message_deliveries_cap is Err {
        Err(mesh_message_deliveries_cap->Err_0)
    } else if mesh_message_deliveries_activation is Err {
        Err(mesh_message_deliveries_activation->Err_0)
    } else if mesh_message_deliveries_window is Err {
        Err(mesh_message_deliveries_window->Err_0)
    } else if mesh_failure_penalty_weight is Err {
        Err(mesh_failure_penalty_weight->Err_0)
    } else if mesh_failure_penalty_decay is Err {
        Err(mesh_failure_penalty_decay->Err_0)
    } else if invalid_message_deliveries_weight is Err {
        Err(invalid_message_deliveries_weight->Err_0)
    } else if invalid_message_deliveries_decay is Err {
        Err(invalid_message_deliveries_decay->Err_0)
    } else {
        Ok(
            TopicScoreParams {
                topic_weight: topic_weight->Ok_0,
                time_in_mesh_weight: time_in_mesh_weight->Ok_0,
                time_in_mesh_quantum: time_in_mesh_quantum->Ok_0,
                time_in_mesh_cap: time_in_mesh_cap->Ok_0,
                first_message_deliveries_weight: first_message_deliveries_weight->Ok_0,
                first_message_deliveries_decay: first_message_deliveries_decay->Ok_0,
                first_message_deliveries_cap: first_message_deliveries_cap->Ok_0,
                mesh_message_deliveries_weight: mesh_message_deliveries_weight->Ok_0,
                mesh_message_deliveries_decay: mesh_message_deliveries_decay->Ok_0,
                mesh_message_deliveries_threshold: mesh_message_deliveries_threshold->Ok_0,
                mesh_message_deliveries_cap: mesh_message_deliveries_cap->Ok_0,
                mesh_message_deliveries_activation: mesh_message_deliveries_activation->Ok_0,
                mesh_message_deliveries_window: mesh_message_deliveries_window->Ok_0,
                mesh_failure_penalty_weight: mesh_failure_penalty_weight->Ok_0,
                mesh_failure_penalty_decay: mesh_failure_penalty_decay->Ok_0,
                invalid_message_deliveries_weight: invalid_message_deliveries_weight->Ok_0,
                invalid_message_deliveries_decay: invalid_message_deliveries_decay->Ok_0,
            },
        )
    }
}

/// Reads the score parameters of a topic. Times in the mesh are counted in slots, activation times
/// in epochs.
pub fn parse_topic_score_params(prefix: &str, instance_params: &InstanceParams) -> (parsed: Result<
    TopicScoreParams,
    String,
>)
    requires
        times_fit(prefix@, instance_params@),
    ensures
        match parsed {
            Ok(topic_params) => parsed_topic_params(prefix@, instance_params@) == Ok::<
                TopicScoreParams,
                Seq<char>,
            >(topic_params),
            Err(e) => parsed_topic_params(prefix@, instance_params@) == Err::<
                TopicScoreParams,
                Seq<char>,
            >(e@),
        },
{
    let topic_weight: Double = get_param::<Double>(
        key(prefix, "_topic_weight").as_str(),
        instance_params,
    )?;
    let time_in_mesh_weight: Double = get_param::<Double>(
        key(prefix, "_time_in_mesh_weight").as_str(),
        instance_params,
    )?;
    let time_in_mesh_quantum: u64 = get_time(
        key(prefix, "_time_in_mesh_quantum").as_str(),
        instance_params,
        SLOT,
    )?;
    let time_in_mesh_cap: Double = get_param::<Double>(
        key(prefix, "_time_in_mesh_cap").as_str(),
        instance_params,
    )?;
    let first_message_deliveries_weight: Double = get_param::<Double>(
        key(prefix, "_first_message_deliveries_weight").as_str(),
        instance_params,
    )?;
    let first_message_deliveries_decay: Double = get_param::<Double>(
        key(prefix, "_first_message_deliveries_decay").as_str(),
        instance_params,
    )?;
    let first_message_deliveries_cap: Double = get_param::<Double>(
        key(prefix, "_first_message_deliveries_cap").as_str(),
        instance_params,
    )?;
    let mesh_message_deliveries_weight: Double = get_param::<Double>(
        key(prefix, "_mesh_message_deliveries_weight").as_str(),
        instance_params,
    )?;
    let mesh_message_deliveries_decay: Double = get_param::<Double>(
        key(prefix, "_mesh_message_deliveries_decay").as_str(),
        instance_params,
    )?;
    let mesh_message_deliveries_threshold: Double = get_param::<Double>(
        key(prefix, "_mesh_message_deliveries_threshold").as_str(),
        instance_params,
    )?;
    let mesh_message_deliveries_cap: Double = get_param::<Double>(
        key(prefix, "_mesh_message_deliveries_cap").as_str(),
        instance_params,
    )?;
    let mesh_message_deliveries_activation: u64 = get_time(
        key(prefix, "_mesh_message_deliveries_activation").as_str(),
        instance_params,
        SLOT * SLOTS_PER_EPOCH,
    )?;
    let mesh_message_deliveries_window: u64 = get_param::<u64>(
        key(prefix, "_mesh_message_deliveries_window").as_str(),
        instance_params,
    )?;
    let mesh_failure_penalty_weight: Double = get_param::<Double>(
        key(prefix, "_mesh_failure_penalty_weight").as_str(),
        instance_params,
    )?;
    let mesh_failure_penalty_decay: Double = get_param::<Double>(
        key(prefix, "_mesh_failure_penalty_decay").as_str(),
        instance_params,
    )?;
    let invalid_message_deliveries_weight: Double = get_param::<Double>(
        key(prefix, "_invalid_message_deliveries_weight").as_str(),
        instance_params,
    )?;
    let invalid_message_deliveries_decay: Double = get_param::<Double>(
        key(prefix, "_invalid_message_deliveries_decay").as_str(),
        instance_params,
    )?;
    Ok(
        TopicScoreParams {
            topic_weight,
            time_in_mesh_weight,
            time_in_mesh_quantum,
            time_in_mesh_cap,
            first_message_deliveries_weight,
            first_message_deliveries_decay,
            first_message_deliveries_cap,
            mesh_message_deliveries_weight,
            mesh_message_deliveries_decay,
            mesh_message_deliveries_threshold,
            mesh_message_deliveries_cap,
            mesh_message_deliveries_activation,
            mesh_message_deliveries_window,
            mesh_failure_penalty_weight,
            mesh_failure_penalty_decay,
            invalid_message_deliveries_weight,
            invalid_message_deliveries_decay,
        },
    )
}

/// How peers are scored over all topics. Times are in seconds.
#[derive(Clone, Copy, Debug)]
pub struct PeerScoreWeights {
    pub topic_score_cap: Double,
    pub decay_interval: u64,
    pub decay_to_zero: Double,
    pub retain_score: u64,
    pub app_specific_weight: Double,
    pub ip_colocation_factor_weight: Double,
    pub ip_colocation_factor_threshold: Double,
    pub behaviour_penalty_weight: Double,
    pub behaviour_penalty_threshold: Double,
    pub behaviour_penalty_decay: Double,
}

/// How peers are scored over all topics, read one parameter after the other.
pub open spec fn parsed_weights(params: ParamMap) -> Result<PeerScoreWeights, Seq<char>> {
    let topic_score_cap = param::<Double>(params, "topic_score_cap"@);
    let decay_interval = param::<u64>(params, "decay_interval"@);
    let decay_to_zero = param::<Double>(params, "decay_to_zero"@);
    let retain_score = param::<u64>(params, "retain_score"@);
    let app_specific_weight = param::<Double>(params, "app_specific_weight"@);
    let ip_colocation_factor_weight = param::<Double>(params, "ip_colocation_factor_weight"@);
    let ip_colocation_factor_threshold = param::<Double>(params, "ip_colocation_factor_threshold"@);
    let behaviour_penalty_weight = param::<Double>(params, "behaviour_penalty_weight"@);
    let behaviour_penalty_threshold = param::<Double>(params, "behaviour_penalty_threshold"@);
    let behaviour_penalty_decay = param::<Double>(params, "behaviour_penalty_decay"@);
    if topic_score_cap is Err {
        Err(topic_score_cap->Err_0)
    } else if decay_interval is Err {
        Err(decay_interval->Err_0)
    } else if decay_to_zero is Err {
        Err(decay_to_zero->Err_0)
    } else if retain_score is Err {
        Err(retain_score->Err_0)
    } else if app_specific_weight is Err {
        Err(app_specific_weight->Err_0)
    } else if ip_colocation_factor_weight is Err {
        Err(ip_colocation_factor_weight->Err_0)
    } else if ip_colocation_factor_threshold is Err {
        Err(ip_colocation_factor_threshold->Err_0)
    } else if behaviour_penalty_weight is Err {
        Err(behaviour_penalty_weight->Err_0)
    } else if behaviour_penalty_threshold is Err {
        Err(behaviour_penalty_threshold->Err_0)
    } else if behaviour_penalty_decay is Err {
        Err(behaviour_penalty_decay->Err_0)
    } else {
        Ok(
            PeerScoreWeights {
                topic_score_cap: topic_score_cap->Ok_0,
                decay_interval: decay_interval->Ok_0,
                decay_to_zero: decay_to_zero->Ok_0,
                retain_score: retain_score->Ok_0,
                app_specific_weight: app_specific_weight->Ok_0,
                ip_colocation_factor_weight: ip_colocation_factor_weight->Ok_0,
                ip_colocation_factor_threshold: ip_colocation_factor_threshold->Ok_0,
                behaviour_penalty_weight: behaviour_penalty_weight->Ok_0,
                behaviour_penalty_threshold: behaviour_penalty_threshold->Ok_0,
                behaviour_penalty_decay: behaviour_penalty_decay->Ok_0,
            },
        )
    }
}

/// Reads how peers are scored over all topics.
pub fn parse_peer_score_params(instance_params: &InstanceParams) -> (parsed: Result<
    PeerScoreWeights,
    String,
>)
    ensures
        match parsed {
            Ok(weights) => parsed_weights(instance_params@) == Ok::<PeerScoreWeights, Seq<char>>(
                weights,
            ),
            Err(e) => parsed_weights(instance_params@) == Err::<PeerScoreWeights, Seq<char>>(e@),
        },
{
    let topic_score_cap: Double = get_param::<Double>("topic_score_cap", instance_params)?;
    let decay_interval: u64 = get_param::<u64>("decay_interval", instance_params)?;
    let decay_to_zero: Double = get_param::<Double>("decay_to_zero", instance_params)?;
    let retain_score: u64 = get_param::<u64>("retain_score", instance_params)?;
    let app_specific_weight: Double = get_param::<Double>("app_specific_weight", instance_params)?;
    let ip_colocation_factor_weight: Double = get_param::<Double>(
        "ip_colocation_factor_weight",
        instance_params,
    )?;
    let ip_colocation_factor_threshold: Double = get_param::<Double>(
        "ip_colocation_factor_threshold",
        instance_params,
    )?;
    let behaviour_penalty_weight: Double = get_param::<Double>(
        "behaviour_penalty_weight",
        instance_params,
    )?;
    let behaviour_penalty_threshold: Double = get_param::<Double>(
        "behaviour_penalty_threshold",
        instance_params,
    )?;
    let behaviour_penalty_decay: Double = get_param::<Double>(
        "behaviour_penalty_decay",
        instance_params,
    )?;
    Ok(
        PeerScoreWeights {
            topic_score_cap,
            decay_interval,
            decay_to_zero,
            retain_score,
            app_specific_weight,
            ip_colocation_factor_weight,
            ip_colocation_factor_threshold,
            behaviour_penalty_weight,
            behaviour_penalty_threshold,
            behaviour_penalty_decay,
        },
    )
}

/// How peers are scored.
#[derive(Debug)]
pub struct PeerScoreParams {
    pub weights: PeerScoreWeights,
    /// The parameters of the topics that are scored.
    pub topics: Vec<(Topic, TopicScoreParams)>,
}

/// The parameters of the first `subnets` attestation subnets: aggregates, then attestations, of each.
pub open spec fn attestation_params(
    subnets: nat,
    aggregates: TopicScoreParams,
    attestations: TopicScoreParams,
) -> Seq<(Topic, TopicScoreParams)> {
    Seq::new(
        2 * subnets,
        |i: int|
            if i % 2 == 0 {
                (Topic::Aggregates((i / 2) as u64), aggregates)
            } else {
                (Topic::Attestations((i / 2) as u64), attestations)
            },
    )
}

/// The parameters of the aggregates of the first `subnets` sync committee subnets.
pub open spec fn contribution_params(subnets: nat, contributions: TopicScoreParams) -> Seq<
    (Topic, TopicScoreParams),
> {
    Seq::new(
        subnets,
        |i: int| (Topic::SignedContributionAndProof(i as u64), contributions),
    )
}

/// The parameters of the messages of the first `subnets` sync committee subnets.
pub open spec fn sync_params(subnets: nat, messages: TopicScoreParams) -> Seq<
    (Topic, TopicScoreParams),
> {
    Seq::new(subnets, |i: int| (Topic::SyncMessages(i as u64), messages))
}

/// How peers are scored, read one part after the other: the weights, blocks, aggregates,
/// attestations, and, where they are enabled, sync committee aggregates and messages.
pub open spec fn built_params(params: ParamMap) -> Result<
    (PeerScoreWeights, Seq<(Topic, TopicScoreParams)>),
    Seq<char>,
> {
    let weights = parsed_weights(params);
    let blocks = parsed_topic_params("bb"@, params);
    let aggregates = parsed_topic_params("baap"@, params);
    let attestations = parsed_topic_params("a"@, params);
    let use_contributions = param::<bool>(params, "scap_enable_topic_params"@);
    let contributions = parsed_topic_params("scap"@, params);
    let use_messages = param::<bool>(params, "scm_enable_topic_params"@);
    let messages = parsed_topic_params("scm"@, params);
    if weights is Err {
        Err(weights->Err_0)
    } else if blocks is Err {
        Err(blocks->Err_0)
    } else if aggregates is Err {
        Err(aggregates->Err_0)
    } else if attestations is Err {
        Err(attestations->Err_0)
    } else if use_contributions is Err {
        Err(use_contributions->Err_0)
    } else if use_contributions->Ok_0 && contributions is Err {
        Err(contributions->Err_0)
    } else if use_messages is Err {
        Err(use_messages->Err_0)
    } else if use_messages->Ok_0 && messages is Err {
        Err(messages->Err_0)
    } else {
        Ok(
            (
                weights->Ok_0,
                seq![(Topic::Blocks, blocks->Ok_0)] + attestation_params(
                    ATTESTATION_SUBNETS as nat,
                    aggregates->Ok_0,
                    attestations->Ok_0,
                ) + (if use_contributions->Ok_0 {
                    contribution_params(SYNC_SUBNETS as nat, contributions->Ok_0)
                } else {
                    Seq::empty()
                }) + (if use_messages->Ok_0 {
                    sync_params(SYNC_SUBNETS as nat, messages->Ok_0)
                } else {
                    Seq::empty()
                }),
            ),
        )
    }
}

/// Whether the times of a topic that are read can be counted in seconds, and so with what is read
/// after the topic.
pub open spec fn times_fit_from(prefix: Seq<char>, params: ParamMap, later: bool) -> bool {
    &&& times_fit(prefix, params)
    &&& parsed_topic_params(prefix, params) is Ok ==> later
}

/// Whether the times of sync committee messages that are read can be counted in seconds.
pub open spec fn message_times_fit(params: ParamMap) -> bool {
    param::<bool>(params, "scm_enable_topic_params"@) == Ok::<bool, Seq<char>>(true) ==> times_fit(
        "scm"@,
        params,
    )
}

/// Whether the times of sync committee aggregates that are read can be counted in seconds, and so
/// with what is read after them.
pub open spec fn contribution_times_fit(params: ParamMap) -> bool {
    match param::<bool>(params, "scap_enable_topic_params"@) {
        Ok(enabled) => if enabled {
            times_fit_from("scap"@, params, message_times_fit(params))
        } else {
            message_times_fit(params)
        },
        Err(_) => true,
    }
}

/// Whether the times of all topics that are read can be counted in seconds. A topic is read where
/// everything before it can be read.
pub open spec fn all_times_fit(params: ParamMap) -> bool {
    parsed_weights(params) is Ok ==> times_fit_from(
        "bb"@,
        params,
        times_fit_from(
            "baap"@,
            params,
            times_fit_from("a"@, params, contribution_times_fit(params)),
        ),
    )
}

/// Whether the times of sync committee messages that are read can be counted in seconds.
fn are_message_times_countable(instance_params: &InstanceParams) -> (fit: bool)
    ensures
        fit == message_times_fit(instance_params@),
{
    match get_param::<bool>("scm_enable_topic_params", instance_params) {
        Ok(enabled) => !enabled || are_times_countable("scm", instance_params),
        Err(_) => true,
    }
}

/// Whether the times of sync committee aggregates that are read can be counted in seconds, and so
/// with what is read after them.
fn are_contribution_times_countable(instance_params: &InstanceParams) -> (fit: bool)
    ensures
        fit == contribution_times_fit(instance_params@),
{
    match get_param::<bool>("scap_enable_topic_params", instance_params) {
        Ok(enabled) => {
            if enabled {
                are_times_countable("scap", instance_params) && (parse_topic_score_params(
                    "scap",
                    instance_params,
                ).is_err() || are_message_times_countable(instance_params))
            } else {
                are_message_times_countable(instance_params)
            }
        },
        Err(_) => true,
    }
}

/// Whether the times of all topics that are read can be counted in seconds.
pub fn are_all_times_countable(instance_params: &InstanceParams) -> (fit: bool)
    ensures
        fit == all_times_fit(instance_params@),
{
    if parse_peer_score_params(instance_params).is_err() {
        return true;
    }
    if !are_times_countable("bb", instance_params) {
        return false;
    }
    if parse_topic_score_params("bb", instance_params).is_err() {
        return true;
    }
    if !are_times_countable("baap", instance_params) {
        return false;
    }
    if parse_topic_score_params("baap", instance_params).is_err() {
        return true;
    }
    are_times_countable("a", instance_params) && (parse_topic_score_params(
        "a",
        instance_params,
    ).is_err() || are_contribution_times_countable(instance_params))
}

/// Reads how peers are scored.
pub fn build_peer_score_params(instance_params: &InstanceParams) -> (parsed: Result<
    PeerScoreParams,
    String,
>)
    requires
        all_times_fit(instance_params@),
    ensures
        match parsed {
            Ok(score_params) => built_params(instance_params@) == Ok::<
                (PeerScoreWeights, Seq<(Topic, TopicScoreParams)>),
                Seq<char>,
            >((score_params.weights, score_params.topics@)),
            Err(e) => built_params(instance_params@) == Err::<
                (PeerScoreWeights, Seq<(Topic, TopicScoreParams)>),
                Seq<char>,
            >(e@),
        },
{
    let weights: PeerScoreWeights = parse_peer_score_params(instance_params)?;
    let blocks: TopicScoreParams = parse_topic_score_params("bb", instance_params)?;
    let aggregates: TopicScoreParams = parse_topic_score_params("baap", instance_params)?;
    let attestations: TopicScoreParams = parse_topic_score_params("a", instance_params)?;
    let mut topics: Vec<(Topic, TopicScoreParams)> = Vec::new();
    topics.push((Topic::Blocks, blocks));
    let ghost first = topics@;
    assert(first =~= seq![(Topic::Blocks, blocks)]);
    let mut subnet: u64 = 0;
    while subnet < ATTESTATION_SUBNETS
        invariant
            subnet <= ATTESTATION_SUBNETS,
            topics@ =~= first + attestation_params(subnet as nat, aggregates, attestations),
        decreases ATTESTATION_SUBNETS - subnet,
    {
        topics.push((Topic::Aggregates(subnet), aggregates));
        topics.push((Topic::Attestations(subnet), attestations));
        assert(topics@ =~= first + attestation_params(
            (subnet + 1) as nat,
            aggregates,
            attestations,
        ));
        subnet = subnet + 1;
    }
    let ghost second = topics@;
    if get_param::<bool>("scap_enable_topic_params", instance_params)? {
        let contributions: TopicScoreParams = parse_topic_score_params("scap", instance_params)?;
        let mut subnet: u64 = 0;
        while subnet < SYNC_SUBNETS
            invariant
                subnet <= SYNC_SUBNETS,
                topics@ =~= second + contribution_params(subnet as nat, contributions),
            decreases SYNC_SUBNETS - subnet,
        {
            topics.push((Topic::SignedContributionAndProof(subnet), contributions));
            subnet = subnet + 1;
        }
    } else {
        assert(topics@ =~= second + Seq::empty());
    }
    let ghost third = topics@;
    if get_param::<bool>("scm_enable_topic_params", instance_params)? {
        let messages: TopicScoreParams = parse_topic_score_params("scm", instance_params)?;
        let mut subnet: u64 = 0;
        while subnet < SYNC_SUBNETS
            invariant
                subnet <= SYNC_SUBNETS,
                topics@ =~= third + sync_params(subnet as nat, messages),
            decreases SYNC_SUBNETS - subnet,
        {
            topics.push((Topic::SyncMessages(subnet), messages));
            subnet = subnet + 1;
        }
    } else {
        assert(topics@ =~= third + Seq::empty());
    }
    Ok(PeerScoreParams { weights, topics })
}

/// No topic has score parameters twice.
pub proof fn scored_topics_differ(params: ParamMap, i: int, j: int)
    requires
        built_params(params) is Ok,
        0 <= i < j < built_params(params)->Ok_0.1.len(),
    ensures
        built_params(params)->Ok_0.1[i].0 != built_params(params)->Ok_0.1[j].0,
{
}

/// What the links of the network are like.
#[derive(Clone, Copy, Debug)]
pub struct NetworkParams {
    /// The latency between nodes, in milliseconds.
    pub latency: u64,
    /// The bandwidth in MiB.
    pub bandwidth: u64,
}

/// What a link is shaped to.
#[derive(Clone, Copy, Debug)]
pub struct LinkShape {
    /// The latency in nanoseconds.
    pub latency: u64,
    /// The bandwidth in bytes.
    pub bandwidth: u64,
}

impl NetworkParams {
    /// Reads what the links of the network are like. Where the latency is below its maximum, it is
    /// drawn at random from there up to the maximum.
    pub fn new(instance_params: &InstanceParams) -> (parsed: Result<NetworkParams, String>)
        ensures
            ({
                let latency = param::<u64>(instance_params@, "latency"@);
                let latency_max = param::<u64>(instance_params@, "latency_max"@);
                let bandwidth = param::<u64>(instance_params@, "bandwidth"@);
                if latency is Err {
                    parsed is Err && parsed->Err_0@ == latency->Err_0
                } else if latency_max is Err {
                    parsed is Err && parsed->Err_0@ == latency_max->Err_0
                } else if bandwidth is Err {
                    parsed is Err && parsed->Err_0@ == bandwidth->Err_0
                } else {
                    &&& parsed is Ok
                    &&& parsed->Ok_0.bandwidth == bandwidth->Ok_0
                    &&& if latency->Ok_0 < latency_max->Ok_0 {
                        latency->Ok_0 <= parsed->Ok_0.latency < latency_max->Ok_0
                    } else {
                        parsed->Ok_0.latency == latency->Ok_0
                    }
                }
            }),
    {
        let mut latency: u64 = get_param::<u64>("latency", instance_params)?;
        let latency_max: u64 = get_param::<u64>("latency_max", instance_params)?;
        if latency < latency_max {
            latency = sample_uniform(latency, latency_max);
        }
        let bandwidth: u64 = get_param::<u64>("bandwidth", instance_params)?;
        Ok(NetworkParams { latency, bandwidth })
    }

    /// What the links of the network are shaped to.
    pub fn link_shape(&self) -> (shape: LinkShape)
        requires
            self.latency * 1_000_000 <= u64::MAX,
            self.bandwidth * 1_048_576 <= u64::MAX,
        ensures
            shape.latency == self.latency * 1_000_000,
            shape.bandwidth == self.bandwidth * 1_048_576,
    {
        LinkShape {
            latency: self.latency * 1_000_000,
            bandwidth: self.bandwidth * 1024 * 1024,
        }
    }
}

} // verus!
