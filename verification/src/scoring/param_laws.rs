//! What holds of the parameters of a scoring run.

use super::param::{
    all_times_fit, built_params, parsed_thresholds, parsed_topic_params, parsed_topology_params,
    parsed_weights, times_fit,
};
use super::topic::Topic;
use crate::influx::Double;
use crate::instance_params::{
    is_read_from, param, topology_params_hold_their_numbers, FromParam, ParamMap,
};
use vstd::prelude::*;

verus! {

/// Why a parameter cannot be read, if it cannot.
pub open spec fn fault<T: FromParam>(params: ParamMap, key: Seq<char>) -> Option<Seq<char>> {
    report_of(param::<T>(params, key))
}

/// Why something was not read, if it was not.
pub open spec fn report_of<T>(read: Result<T, Seq<char>>) -> Option<Seq<char>> {
    match read {
        Ok(_) => None,
        Err(report) => Some(report),
    }
}

/// Whether the first of some faults is reported, and nothing where there is none.
pub open spec fn reports_first(faults: Seq<Option<Seq<char>>>, report: Option<Seq<char>>) -> bool {
    if report is Some {
        exists|k: int|
            0 <= k < faults.len() && #[trigger] faults[k] == report && forall|j: int|
                0 <= j < k ==> #[trigger] faults[j] is None
    } else {
        forall|k: int| 0 <= k < faults.len() ==> #[trigger] faults[k] is None
    }
}

/// Why the score parameters of a topic cannot be read, in the order in which they are read.
pub open spec fn topic_faults(prefix: Seq<char>, params: ParamMap) -> Seq<Option<Seq<char>>> {
    seq![
        fault::<Double>(params, prefix + "_topic_weight"@),
        fault::<Double>(params, prefix + "_time_in_mesh_weight"@),
        fault::<u64>(params, prefix + "_time_in_mesh_quantum"@),
        fault::<Double>(params, prefix + "_time_in_mesh_cap"@),
        fault::<Double>(params, prefix + "_first_message_deliveries_weight"@),
        fault::<Double>(params, prefix + "_first_message_deliveries_decay"@),
        fault::<Double>(params, prefix + "_first_message_deliveries_cap"@),
        fault::<Double>(params, prefix + "_mesh_message_deliveries_weight"@),
        fault::<Double>(params, prefix + "_mesh_message_deliveries_decay"@),
        fault::<Double>(params, prefix + "_mesh_message_deliveries_threshold"@),
        fault::<Double>(params, prefix + "_mesh_message_deliveries_cap"@),
        fault::<u64>(params, prefix + "_mesh_message_deliveries_activation"@),
        fault::<u64>(params, prefix + "_mesh_message_deliveries_window"@),
        fault::<Double>(params, prefix + "_mesh_failure_penalty_weight"@),
        fault::<Double>(params, prefix + "_mesh_failure_penalty_decay"@),
        fault::<Double>(params, prefix + "_invalid_message_deliveries_weight"@),
        fault::<Double>(params, prefix + "_invalid_message_deliveries_decay"@),
    ]
}

/// The score parameters of a topic are those under their own names behind the prefix of the topic.
/// Times in the mesh are counted in slots of twelve seconds, activation times in epochs of 32 slots.
pub proof fn topic_params_are_read_by_name(prefix: Seq<char>, params: ParamMap)
    ensures
        parsed_topic_params(prefix, params) matches Ok(read) ==> {
            &&& param::<Double>(params, prefix + "_topic_weight"@) == Ok::<Double, Seq<char>>(read.topic_weight)
            &&& param::<Double>(params, prefix + "_time_in_mesh_weight"@) == Ok::<Double, Seq<char>>(read.time_in_mesh_weight)
            &&& param::<u64>(params, prefix + "_time_in_mesh_quantum"@) matches Ok(n) && (n * 12
                <= u64::MAX ==> read.time_in_mesh_quantum == n * 12)
            &&& param::<Double>(params, prefix + "_time_in_mesh_cap"@) == Ok::<Double, Seq<char>>(read.time_in_mesh_cap)
            &&& param::<Double>(params, prefix + "_first_message_deliveries_weight"@) == Ok::<Double, Seq<char>>(read.first_message_deliveries_weight)
            &&& param::<Double>(params, prefix + "_first_message_deliveries_decay"@) == Ok::<Double, Seq<char>>(read.first_message_deliveries_decay)
            &&& param::<Double>(params, prefix + "_first_message_deliveries_cap"@) == Ok::<Double, Seq<char>>(read.first_message_deliveries_cap)
            &&& param::<Double>(params, prefix + "_mesh_message_deliveries_weight"@) == Ok::<Double, Seq<char>>(read.mesh_message_deliveries_weight)
            &&& param::<Double>(params, prefix + "_mesh_message_deliveries_decay"@) == Ok::<Double, Seq<char>>(read.mesh_message_deliveries_decay)
            &&& param::<Double>(params, prefix + "_mesh_message_deliveries_threshold"@) == Ok::<Double, Seq<char>>(read.mesh_message_deliveries_threshold)
            &&& param::<Double>(params, prefix + "_mesh_message_deliveries_cap"@) == Ok::<Double, Seq<char>>(read.mesh_message_deliveries_cap)
            &&& param::<u64>(params, prefix + "_mesh_message_deliveries_activation"@) matches Ok(n) && (n * 384
                <= u64::MAX ==> read.mesh_message_deliveries_activation == n * 384)
            &&& param::<u64>(params, prefix + "_mesh_message_deliveries_window"@) == Ok::<u64, Seq<char>>(read.mesh_message_deliveries_window)
            &&& param::<Double>(params, prefix + "_mesh_failure_penalty_weight"@) == Ok::<Double, Seq<char>>(read.mesh_failure_penalty_weight)
            &&& param::<Double>(params, prefix + "_mesh_failure_penalty_decay"@) == Ok::<Double, Seq<char>>(read.mesh_failure_penalty_decay)
            &&& param::<Double>(params, prefix + "_invalid_message_deliveries_weight"@) == Ok::<Double, Seq<char>>(read.invalid_message_deliveries_weight)
            &&& param::<Double>(params, prefix + "_invalid_message_deliveries_decay"@) == Ok::<Double, Seq<char>>(read.invalid_message_deliveries_decay)
        },
{
}

/// The first score parameter of a topic that cannot be read is reported.
pub proof fn topic_params_report_the_first_fault(prefix: Seq<char>, params: ParamMap)
    ensures
        reports_first(topic_faults(prefix, params), report_of(parsed_topic_params(prefix, params))),
{
    let report = report_of(parsed_topic_params(prefix, params));
    let faults = topic_faults(prefix, params);
    if faults[0] is Some {
        assert(faults[0] == report);
    } else if faults[1] is Some {
        assert(faults[1] == report);
    } else if faults[2] is Some {
        assert(faults[2] == report);
    } else if faults[3] is Some {
        assert(faults[3] == report);
    } else if faults[4] is Some {
        assert(faults[4] == report);
    } else if faults[5] is Some {
        assert(faults[5] == report);
    } else if faults[6] is Some {
        assert(faults[6] == report);
    } else if faults[7] is Some {
        assert(faults[7] == report);
    } else if faults[8] is Some {
        assert(faults[8] == report);
    } else if faults[9] is Some {
        assert(faults[9] == report);
    } else if faults[10] is Some {
        assert(faults[10] == report);
    } else if faults[11] is Some {
        assert(faults[11] == report);
    } else if faults[12] is Some {
        assert(faults[12] == report);
    } else if faults[13] is Some {
        assert(faults[13] == report);
    } else if faults[14] is Some {
        assert(faults[14] == report);
    } else if faults[15] is Some {
        assert(faults[15] == report);
    } else if faults[16] is Some {
        assert(faults[16] == report);
    }
}

/// Why the weights cannot be read, in the order in which they are read.
pub open spec fn weight_faults(params: ParamMap) -> Seq<Option<Seq<char>>> {
    seq![
        fault::<Double>(params, "topic_score_cap"@),
        fault::<u64>(params, "decay_interval"@),
        fault::<Double>(params, "decay_to_zero"@),
        fault::<u64>(params, "retain_score"@),
        fault::<Double>(params, "app_specific_weight"@),
        fault::<Double>(params, "ip_colocation_factor_weight"@),
        fault::<Double>(params, "ip_colocation_factor_threshold"@),
        fault::<Double>(params, "behaviour_penalty_weight"@),
        fault::<Double>(params, "behaviour_penalty_threshold"@),
        fault::<Double>(params, "behaviour_penalty_decay"@),
    ]
}

/// How peers are scored over all topics stands under its own names, and the first that cannot be read
/// is reported.
pub proof fn weights_are_read_by_name(params: ParamMap)
    ensures
        parsed_weights(params) matches Ok(read) ==> {
            &&& param::<Double>(params, "topic_score_cap"@) == Ok::<Double, Seq<char>>(read.topic_score_cap)
            &&& param::<u64>(params, "decay_interval"@) == Ok::<u64, Seq<char>>(read.decay_interval)
            &&& param::<Double>(params, "decay_to_zero"@) == Ok::<Double, Seq<char>>(read.decay_to_zero)
            &&& param::<u64>(params, "retain_score"@) == Ok::<u64, Seq<char>>(read.retain_score)
            &&& param::<Double>(params, "app_specific_weight"@) == Ok::<Double, Seq<char>>(read.app_specific_weight)
            &&& param::<Double>(params, "ip_colocation_factor_weight"@) == Ok::<Double, Seq<char>>(read.ip_colocation_factor_weight)
            &&& param::<Double>(params, "ip_colocation_factor_threshold"@) == Ok::<Double, Seq<char>>(read.ip_colocation_factor_threshold)
            &&& param::<Double>(params, "behaviour_penalty_weight"@) == Ok::<Double, Seq<char>>(read.behaviour_penalty_weight)
            &&& param::<Double>(params, "behaviour_penalty_threshold"@) == Ok::<Double, Seq<char>>(read.behaviour_penalty_threshold)
            &&& param::<Double>(params, "behaviour_penalty_decay"@) == Ok::<Double, Seq<char>>(read.behaviour_penalty_decay)
        },
        reports_first(weight_faults(params), report_of(parsed_weights(params))),
{
    let report = report_of(parsed_weights(params));
    let faults = weight_faults(params);
    if faults[0] is Some {
        assert(faults[0] == report);
    } else if faults[1] is Some {
        assert(faults[1] == report);
    } else if faults[2] is Some {
        assert(faults[2] == report);
    } else if faults[3] is Some {
        assert(faults[3] == report);
    } else if faults[4] is Some {
        assert(faults[4] == report);
    } else if faults[5] is Some {
        assert(faults[5] == report);
    } else if faults[6] is Some {
        assert(faults[6] == report);
    } else if faults[7] is Some {
        assert(faults[7] == report);
    } else if faults[8] is Some {
        assert(faults[8] == report);
    } else if faults[9] is Some {
        assert(faults[9] == report);
    }
}

/// Why the thresholds cannot be read, in the order in which they are read.
pub open spec fn threshold_faults(params: ParamMap) -> Seq<Option<Seq<char>>> {
    seq![
        fault::<Double>(params, "gossip_threshold"@),
        fault::<Double>(params, "publish_threshold"@),
        fault::<Double>(params, "graylist_threshold"@),
        fault::<Double>(params, "accept_px_threshold"@),
        fault::<Double>(params, "opportunistic_graft_threshold"@),
    ]
}

/// The score thresholds stand under their own names, and the first that cannot be read is reported.
pub proof fn thresholds_are_read_by_name(params: ParamMap)
    ensures
        parsed_thresholds(params) matches Ok(read) ==> {
            &&& param::<Double>(params, "gossip_threshold"@) == Ok::<Double, Seq<char>>(read.gossip_threshold)
            &&& param::<Double>(params, "publish_threshold"@) == Ok::<Double, Seq<char>>(read.publish_threshold)
            &&& param::<Double>(params, "graylist_threshold"@) == Ok::<Double, Seq<char>>(read.graylist_threshold)
            &&& param::<Double>(params, "accept_px_threshold"@) == Ok::<Double, Seq<char>>(read.accept_px_threshold)
            &&& param::<Double>(params, "opportunistic_graft_threshold"@) == Ok::<Double, Seq<char>>(read.opportunistic_graft_threshold)
        },
        reports_first(threshold_faults(params), report_of(parsed_thresholds(params))),
{
    let report = report_of(parsed_thresholds(params));
    let faults = threshold_faults(params);
    if faults[0] is Some {
        assert(faults[0] == report);
    } else if faults[1] is Some {
        assert(faults[1] == report);
    } else if faults[2] is Some {
        assert(faults[2] == report);
    } else if faults[3] is Some {
        assert(faults[3] == report);
    } else if faults[4] is Some {
        assert(faults[4] == report);
    }
}

/// The prefix under which the score parameters of a topic stand.
pub open spec fn prefix_of(topic: Topic) -> Seq<char> {
    match topic {
        Topic::Blocks => "bb"@,
        Topic::Aggregates(_) => "baap"@,
        Topic::Attestations(_) => "a"@,
        Topic::SignedContributionAndProof(_) => "scap"@,
        Topic::SyncMessages(_) => "scm"@,
    }
}

/// Whether a topic is scored: blocks and the four subnets of attestations and of their aggregates
/// always, the four subnets of the sync committees where their parameters are enabled.
pub open spec fn is_scored(topic: Topic, params: ParamMap) -> bool {
    match topic {
        Topic::Blocks => true,
        Topic::Aggregates(subnet) | Topic::Attestations(subnet) => subnet < 4,
        Topic::SignedContributionAndProof(subnet) => subnet < 4 && param::<bool>(
            params,
            "scap_enable_topic_params"@,
        ) == Ok::<bool, Seq<char>>(true),
        Topic::SyncMessages(subnet) => subnet < 4 && param::<bool>(
            params,
            "scm_enable_topic_params"@,
        ) == Ok::<bool, Seq<char>>(true),
    }
}

/// Each topic that is scored is scored with what is read under the prefix of its own kind, and no
/// other topic is scored.
pub proof fn topics_are_scored_by_their_kind(params: ParamMap, i: int)
    requires
        built_params(params) is Ok,
        0 <= i < built_params(params)->Ok_0.1.len(),
    ensures
        ({
            let (topic, scores) = built_params(params)->Ok_0.1[i];
            &&& is_scored(topic, params)
            &&& parsed_topic_params(prefix_of(topic), params) == Ok::<
                super::param::TopicScoreParams,
                Seq<char>,
            >(scores)
        }),
{
}

/// Where the score parameters of a topic that is scored stand.
pub proof fn scored_topics_have_params(params: ParamMap, topic: Topic) -> (i: int)
    requires
        built_params(params) is Ok,
        is_scored(topic, params),
    ensures
        0 <= i < built_params(params)->Ok_0.1.len(),
        built_params(params)->Ok_0.1[i].0 == topic,
        parsed_weights(params) == Ok::<super::param::PeerScoreWeights, Seq<char>>(
            built_params(params)->Ok_0.0,
        ),
{
    let topics = built_params(params)->Ok_0.1;
    let contributions: int = if param::<bool>(params, "scap_enable_topic_params"@) == Ok::<
        bool,
        Seq<char>,
    >(true) {
        4
    } else {
        0
    };
    let i = match topic {
        Topic::Blocks => 0,
        Topic::Aggregates(subnet) => 1 + 2 * subnet,
        Topic::Attestations(subnet) => 2 + 2 * subnet,
        Topic::SignedContributionAndProof(subnet) => 9 + subnet,
        Topic::SyncMessages(subnet) => 9 + contributions + subnet,
    };
    assert(topics[i].0 == topic);
    i
}

/// Why the score parameters cannot be built, in order: the weights, then blocks, aggregates and
/// attestations, then the sync committees as far as they are enabled.
pub open spec fn build_faults(params: ParamMap) -> Seq<Option<Seq<char>>> {
    let contributions = param::<bool>(params, "scap_enable_topic_params"@);
    let messages = param::<bool>(params, "scm_enable_topic_params"@);
    seq![
        report_of(parsed_weights(params)),
        report_of(parsed_topic_params("bb"@, params)),
        report_of(parsed_topic_params("baap"@, params)),
        report_of(parsed_topic_params("a"@, params)),
        report_of(contributions),
        if contributions == Ok::<bool, Seq<char>>(true) {
            report_of(parsed_topic_params("scap"@, params))
        } else {
            None
        },
        report_of(messages),
        if messages == Ok::<bool, Seq<char>>(true) {
            report_of(parsed_topic_params("scm"@, params))
        } else {
            None
        },
    ]
}

/// The first part of the score parameters that cannot be read is reported.
pub proof fn score_params_report_the_first_fault(params: ParamMap)
    ensures
        reports_first(build_faults(params), report_of(built_params(params))),
{
    let report = report_of(built_params(params));
    let faults = build_faults(params);
    if faults[0] is Some {
        assert(faults[0] == report);
    } else if faults[1] is Some {
        assert(faults[1] == report);
    } else if faults[2] is Some {
        assert(faults[2] == report);
    } else if faults[3] is Some {
        assert(faults[3] == report);
    } else if faults[4] is Some {
        assert(faults[4] == report);
    } else if faults[5] is Some {
        assert(faults[5] == report);
    } else if faults[6] is Some {
        assert(faults[6] == report);
    } else if faults[7] is Some {
        assert(faults[7] == report);
    }
}

/// A number that was read, without a bound.
pub open spec fn unbounded<T>(read: Result<T, Seq<char>>, number: spec_fn(T) -> nat) -> Result<
    nat,
    Seq<char>,
> {
    match read {
        Ok(x) => Ok(number(x)),
        Err(report) => Err(report),
    }
}

/// The run time and the topology of a scoring run are read from the numbers under their own names, in
/// order.
pub proof fn scoring_topology_is_read_by_name(total_nodes: usize, params: ParamMap)
    ensures
        ({
            let wide = |n: u64| n as nat;
            let word = |n: usize| n as nat;
            is_read_from(
                match parsed_topology_params(total_nodes as nat, params) {
                    Ok((run, topology)) => Ok((run as nat, topology)),
                    Err(report) => Err(report),
                },
                total_nodes as nat,
                unbounded(param::<u64>(params, "seed"@), wide),
                unbounded(param::<usize>(params, "no_val_percentage"@), word),
                unbounded(param::<usize>(params, "total_validators"@), word),
                unbounded(param::<usize>(params, "min_peers_per_node"@), word),
                unbounded(param::<usize>(params, "max_peers_per_node_inclusive"@), word),
                unbounded(param::<u64>(params, "run"@), wide),
            )
        }),
{
    let seed = param::<u64>(params, "seed"@);
    let no_val = param::<usize>(params, "no_val_percentage"@);
    let validators = param::<usize>(params, "total_validators"@);
    let least = param::<usize>(params, "min_peers_per_node"@);
    let most = param::<usize>(params, "max_peers_per_node_inclusive"@);
    if seed is Ok && no_val is Ok && validators is Ok && least is Ok && most is Ok {
        topology_params_hold_their_numbers(
            total_nodes,
            seed->Ok_0,
            no_val->Ok_0,
            validators->Ok_0,
            least->Ok_0,
            most->Ok_0,
        );
    }
}

/// Whether a number, where it can be read, is at most the largest that can be counted in seconds when it
/// counts epochs of 32 slots of twelve seconds.
pub open spec fn is_moderate(params: ParamMap, key: Seq<char>) -> bool {
    match param::<u64>(params, key) {
        Ok(n) => n * 384 <= u64::MAX,
        Err(_) => true,
    }
}

/// Whether both times of a kind of topic are moderate.
pub open spec fn has_moderate_times(params: ParamMap, prefix: Seq<char>) -> bool {
    &&& is_moderate(params, prefix + "_time_in_mesh_quantum"@)
    &&& is_moderate(params, prefix + "_mesh_message_deliveries_activation"@)
}

/// Moderate times always fit. Where all parameters of a kind of topic could be read and its times fit, both
/// can be counted in seconds.
pub proof fn moderate_times_fit(prefix: Seq<char>, params: ParamMap)
    ensures
        has_moderate_times(params, prefix) ==> times_fit(prefix, params),
        parsed_topic_params(prefix, params) is Ok && times_fit(prefix, params) ==> {
            let quantum = param::<u64>(params, prefix + "_time_in_mesh_quantum"@);
            let activation = param::<u64>(
                params,
                prefix + "_mesh_message_deliveries_activation"@,
            );
            &&& quantum is Ok && quantum->Ok_0 * 12 <= u64::MAX
            &&& activation is Ok && activation->Ok_0 * 384 <= u64::MAX
        },
        has_moderate_times(params, "bb"@) && has_moderate_times(params, "baap"@)
            && has_moderate_times(params, "a"@) && has_moderate_times(params, "scap"@)
            && has_moderate_times(params, "scm"@) ==> all_times_fit(params),
{
}

} // verus!
