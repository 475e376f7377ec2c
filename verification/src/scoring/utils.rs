//! Write queries of the scoring simulation.

use super::beacon_node::BeaconNodeInfo;
use crate::influx::{query, query_views, QueryView, Timestamp, Type, TypeView, WriteQuery};
use crate::openmetrics::MetricFamily;
use crate::recording::{
    all_join, counter_points, counter_queries, join_queries, joined_counters,
    partners_are_counters, Origin,
};
use crate::rng::random_u32;
use crate::text::{decimal, decimal_text};
use vstd::prelude::*;

verus! {

/// The state that is signalled when the network is configured.
pub const BARRIER_NETWORK_READY: &'static str = "Network configured";

/// The state that is signalled when the transport runs.
pub const BARRIER_LIBP2P_READY: &'static str = "Started libp2p";

/// The state that is signalled when all nodes are connected.
pub const BARRIER_TOPOLOGY_READY: &'static str = "Topology generated";

/// The state that is signalled at the end of the run.
pub const BARRIER_SIMULATION_COMPLETED: &'static str = "Simulation completed";

/// What all queries about the metrics of a node share.
pub open spec fn origin(datetime: Timestamp, peer_id: Seq<char>, run_id: Seq<char>) -> QueryView {
    query(datetime, "scoring_"@).text_tag("peer_id"@, peer_id).text_tag("run_id"@, run_id)
}

/// What all queries about the metrics of a node share.
pub fn make_origin(datetime: Timestamp, peer_id: &str, run_id: &str) -> (shared: Origin)
    ensures
        shared@ == origin(datetime, peer_id@, run_id@),
{
    Origin::new(datetime, "scoring_").add_text_tag("peer_id", peer_id).add_text_tag(
        "run_id",
        run_id,
    )
}

/// Queries for counter metrics.
pub fn queries_for_counter(
    datetime: Timestamp,
    family: &MetricFamily,
    peer_id: &str,
    run_id: &str,
) -> (queries: Vec<WriteQuery>)
    requires
        family.all_count(),
    ensures
        query_views(queries@) == counter_points(origin(datetime, peer_id@, run_id@), *family),
{
    counter_queries(&make_origin(datetime, peer_id, run_id), family)
}

/// Queries for joined counter metrics: what `predicate` makes of the counters of the first family and
/// their partners in the second.
pub fn queries_for_counter_join<F: Fn(u64, u64) -> u64>(
    datetime: Timestamp,
    family1: &MetricFamily,
    family2: &MetricFamily,
    name: &str,
    peer_id: &str,
    run_id: &str,
    predicate: F,
) -> (queries: Vec<WriteQuery>)
    requires
        family1.all_count(),
        partners_are_counters(family1.metrics@, family2.metrics@),
        forall|a: u64, b: u64| #[trigger] call_requires(predicate, (a, b)),
    ensures
        all_join(
            predicate,
            origin(datetime, peer_id@, run_id@).about(name@),
            joined_counters(family1.metrics@, family2.metrics@),
            query_views(queries@),
        ),
{
    join_queries(
        &make_origin(datetime, peer_id, run_id),
        family1,
        family2,
        name,
        predicate,
    )
}

/// The query that tells the id of a run. Only the first node of a group sends it.
pub fn record_run_id(now: Timestamp, group_seq: u64, run_id: &str) -> (record: Option<WriteQuery>)
    ensures
        match record {
            Some(record) => group_seq == 1 && record@ == query(now, "scoring_run_id"@).text_tag(
                "run_id"@,
                run_id@,
            ).text_field("run_id"@, run_id@),
            None => group_seq != 1,
        },
{
    if group_seq != 1 {
        return None;
    }
    Some(
        WriteQuery::new(now, "scoring_run_id").add_text_tag("run_id", run_id).add_text_field(
            "run_id",
            run_id,
        ),
    )
}

/// The query that tells which node is censored. Only the first node of a group sends it.
pub fn record_victim_id(
    now: Timestamp,
    group_seq: u64,
    run_id: &str,
    victim: &BeaconNodeInfo,
) -> (record: Option<WriteQuery>)
    ensures
        match record {
            Some(record) => group_seq == 1 && record@ == query(now, "scoring_victim"@).text_tag(
                "run_id"@,
                run_id@,
            ).text_field("peer_id"@, victim.peer_id@),
            None => group_seq != 1,
        },
{
    if group_seq != 1 {
        return None;
    }
    Some(
        WriteQuery::new(now, "scoring_victim").add_text_tag("run_id", run_id).add_text_field(
            "peer_id",
            victim.peer_id.as_str(),
        ),
    )
}

/// The query that puts an honest node into the graph of the network. Its title tells whether it
/// runs validators, and its number, counted from zero.
pub fn record_topology_beacon_node(
    now: Timestamp,
    group_seq: u64,
    run_id: &str,
    info: &BeaconNodeInfo,
) -> (record: WriteQuery)
    requires
        group_seq > 0,
    ensures
        record@ == query(now, "scoring_topology_node"@).text_tag("run_id"@, run_id@).text_field(
            "id"@,
            info.peer_id@,
        ).text_field(
            "title"@,
            (if info.validators@.len() > 0 {
                "bn_"@
            } else {
                "bn_no_val_"@
            }) + decimal((group_seq - 1) as nat),
        ).field("arc__bn"@, TypeView::SignedInteger(1)),
{
    let number: String = decimal_text((group_seq - 1) as u128);
    let title: String = if info.validators.len() > 0 {
        "bn_".to_owned().concat(number.as_str())
    } else {
        "bn_no_val_".to_owned().concat(number.as_str())
    };
    WriteQuery::new(now, "scoring_topology_node").add_text_tag("run_id", run_id).add_text_field(
        "id",
        info.peer_id.as_str(),
    ).add_text_field("title", title.as_str()).add_field("arc__bn", Type::SignedInteger(1))
}

/// The query that puts a censoring node into the graph of the network.
pub fn record_topology_attacker(
    now: Timestamp,
    group_seq: u64,
    run_id: &str,
    peer_id: &str,
) -> (record: WriteQuery)
    requires
        group_seq > 0,
    ensures
        record@ == query(now, "scoring_topology_node"@).text_tag("run_id"@, run_id@).text_field(
            "id"@,
            peer_id@,
        ).text_field("title"@, "attacker_"@ + decimal((group_seq - 1) as nat)).field(
            "arc__attacker"@,
            TypeView::SignedInteger(1),
        ),
{
    let number: String = decimal_text((group_seq - 1) as u128);
    let title: String = "attacker_".to_owned().concat(number.as_str());
    WriteQuery::new(now, "scoring_topology_node").add_text_tag("run_id", run_id).add_text_field(
        "id",
        peer_id,
    ).add_text_field("title", title.as_str()).add_field("arc__attacker", Type::SignedInteger(1))
}

/// The data point of an edge in the graph of the network.
pub open spec fn edge_point(
    now: Timestamp,
    run_id: Seq<char>,
    id: u32,
    source: Seq<char>,
    target: Seq<char>,
) -> QueryView {
    query(now, "scoring_topology_edge"@).text_tag("run_id"@, run_id).text_field(
        "id"@,
        decimal(id as nat),
    ).text_field("source"@, source).text_field("target"@, target)
}

/// The query that puts an edge with a given id into the graph of the network.
pub fn topology_edge(now: Timestamp, run_id: &str, id: u32, source: &str, target: &str) -> (record:
    WriteQuery)
    ensures
        record@ == edge_point(now, run_id@, id, source@, target@),
{
    WriteQuery::new(now, "scoring_topology_edge").add_text_tag("run_id", run_id).add_text_field(
        "id",
        decimal_text(id as u128).as_str(),
    ).add_text_field("source", source).add_text_field("target", target)
}

/// The query that puts an edge into the graph of the network. Its id is drawn at random.
pub fn record_topology_edge(now: Timestamp, run_id: &str, source: &str, target: &str) -> (record:
    WriteQuery)
    ensures
        exists|id: u32| record@ == #[trigger] edge_point(now, run_id@, id, source@, target@),
{
    topology_edge(now, run_id, random_u32(), source, target)
}

} // verus!
