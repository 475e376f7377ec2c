//! What holds of the instances of an emulation, their parameters and their records.

use super::attacker::is_victim;
use super::honest::{
    honest_of, names_of, parsed_test_params, score_fields, PeerScore, TestParams, HISTORY_LENGTH,
    PRUNE_BACKOFF, SCORE_INTERVAL,
};
use super::utils::{counter_fields, gauge_fields, has_topic_hash, topic_hash};
use super::{first_with_peer_id, InstanceInfo, Role};
use crate::influx::TypeView;
use crate::instance_params::{number_at, ParamMap};
use crate::openmetrics::{Label, MetricFamily};
use crate::text::decimal;
use vstd::prelude::*;

verus! {

/// An instance is named by its role and its number in the group. Only attackers are not honest, and
/// the victim is the first publisher.
pub proof fn instances_are_named_by_their_role(info: InstanceInfo)
    ensures
        info.title() == (match info.role {
            Role::Publisher => "Publisher"@,
            Role::Lurker => "Lurker"@,
            Role::Attacker => "Attacker"@,
        }) + decimal(info.group_seq as nat),
        info.role.honest() <==> info.role != Role::Attacker,
        is_victim(info) <==> info.role == Role::Publisher && info.group_seq == 1,
        PRUNE_BACKOFF == 60,
        HISTORY_LENGTH == 12,
        SCORE_INTERVAL == 1,
{
}

/// Each number of a run is read under its own name.
pub proof fn numbers_are_read_by_name(params: ParamMap)
    ensures
        ({
            let peers = number_at(
                params,
                "peers_to_connect"@,
                "peers_to_connect is not specified."@,
                ""@,
                usize::MAX as nat,
            );
            let rate = number_at(
                params,
                "message_rate"@,
                "message_rate is not specified."@,
                ""@,
                u64::MAX as nat,
            );
            let warmup = number_at(
                params,
                "warmup"@,
                "warmup is not specified."@,
                ""@,
                u64::MAX as nat,
            );
            let run = number_at(params, "run"@, "run is not specified."@, ""@, u64::MAX as nat);
            match parsed_test_params(params) {
                Ok(read) => {
                    &&& peers is Ok && rate is Ok && warmup is Ok && run is Ok
                    &&& read.peers_to_connect == peers->Ok_0 as usize
                    &&& read.message_rate == rate->Ok_0 as u64
                    &&& read.warmup == warmup->Ok_0 as u64
                    &&& read.run == run->Ok_0 as u64
                },
                Err(report) => {
                    ||| peers == Err::<nat, Seq<char>>(report)
                    ||| peers is Ok && rate == Err::<nat, Seq<char>>(report)
                    ||| peers is Ok && rate is Ok && warmup == Err::<nat, Seq<char>>(report)
                    ||| peers is Ok && rate is Ok && warmup is Ok && run == Err::<nat, Seq<char>>(
                        report,
                    )
                },
            }
        }),
{
}

/// As many messages as the rate says fit in a second, and no wait could be a millisecond longer.
pub proof fn messages_are_sent_at_their_rate(params: TestParams)
    requires
        params.message_rate > 0,
    ensures
        params.interval() * params.message_rate <= 1000,
        (params.interval() + 1) * params.message_rate > 1000,
{
    let rate = params.message_rate as nat;
    assert(1000nat / rate * rate <= 1000 && (1000nat / rate + 1) * rate > 1000) by (nonlinear_arith)
        requires
            rate > 0,
    ;
}

/// Attackers are left out of those to connect to, and the others keep their order.
pub proof fn honest_instances_are_kept(infos: Seq<InstanceInfo>, info: InstanceInfo)
    ensures
        honest_of(Seq::empty()).len() == 0,
        honest_of(infos.push(info)) == if info.role == Role::Attacker {
            honest_of(infos)
        } else {
            honest_of(infos).push(info)
        },
{
    reveal(Seq::filter);
    assert(infos.push(info).drop_last() =~= infos);
}

/// The names by peer are those of the participants, the later one where two have the same peer.
pub proof fn peers_are_named(infos: Seq<InstanceInfo>, info: InstanceInfo, peer_id: Seq<char>)
    ensures
        !names_of(Seq::empty()).contains_key(peer_id),
        ({
            let before = names_of(infos);
            let after = names_of(infos.push(info));
            &&& after.contains_key(info.peer_id@)
            &&& after[info.peer_id@] == info.title()
            &&& peer_id != info.peer_id@ ==> (after.contains_key(peer_id) <==> before.contains_key(
                peer_id,
            ))
            &&& peer_id != info.peer_id@ && before.contains_key(peer_id) ==> after[peer_id]
                == before[peer_id]
        }),
{
    assert(infos.push(info).drop_last() =~= infos);
}

/// Each score is recorded under the name of its peer.
pub proof fn scores_are_recorded_by_name(
    names: Map<Seq<char>, Seq<char>>,
    scores: Seq<PeerScore>,
    i: int,
)
    requires
        0 <= i < scores.len(),
    ensures
        score_fields(names, scores).len() == scores.len(),
        score_fields(names, scores)[i].name == names[scores[i].peer_id@],
        score_fields(names, scores)[i].value == TypeView::Float(scores[i].score),
{
}

/// The topic of a metric is the value of the first label of that name.
pub proof fn topics_are_first_labels(labels: Seq<Label>, k: int)
    requires
        0 <= k < labels.len(),
        labels[k].name@ == "hash"@,
        forall|i: int| 0 <= i < k ==> (#[trigger] labels[i]).name@ != "hash"@,
    ensures
        has_topic_hash(labels),
        topic_hash(labels) == labels[k].value@,
    decreases k,
{
    if k > 0 {
        assert(labels[0].name@ != "hash"@);
        let rest = labels.drop_first();
        assert forall|i: int| 0 <= i < k - 1 implies (#[trigger] rest[i]).name@ != "hash"@ by {
            assert(labels[i + 1].name@ != "hash"@);
        }
        topics_are_first_labels(rest, k - 1);
    }
}

/// Each metric is recorded under the name of its family and its topic, with its own value.
pub proof fn metrics_are_recorded_by_topic(family: MetricFamily, i: int)
    requires
        0 <= i < family.metrics@.len(),
    ensures
        ({
            let metric = family.metrics@[i];
            let name = family.name@ + "_"@ + topic_hash(metric.labels@);
            &&& counter_fields(family).len() == family.metrics@.len()
            &&& counter_fields(family)[i].name == name
            &&& counter_fields(family)[i].value == TypeView::UnsignedInteger(metric.count())
            &&& gauge_fields(family).len() == family.metrics@.len()
            &&& gauge_fields(family)[i].name == name
            &&& gauge_fields(family)[i].value == TypeView::SignedInteger(metric.measure())
        }),
{
}

/// An instance is found by its peer id, the first one where several have the same.
pub proof fn instances_are_found_by_peer_id(
    infos: Seq<InstanceInfo>,
    peer_id: Seq<char>,
    k: int,
    i: int,
)
    requires
        first_with_peer_id(infos, peer_id, k),
        0 <= i < infos.len(),
        infos[i].peer_id@ == peer_id,
    ensures
        0 <= k <= i,
        infos[k].peer_id@ == peer_id,
        first_with_peer_id(infos, peer_id, i) ==> i == k,
{
}

} // verus!
