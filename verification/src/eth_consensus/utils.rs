//! Write queries of the consensus simulation.

use super::InstanceInfo;
use crate::influx::{query, query_views, QueryView, Timestamp, Type, TypeView, WriteQuery};
use crate::openmetrics::MetricFamily;
use crate::recording::{
    all_join, counter_points, counter_queries, gauge_points, gauge_queries,
    histogram_points, histogram_queries, join_queries, joined_counters, partners_are_counters,
    Origin,
};
use crate::text::{decimal, decimal_text};
use vstd::prelude::*;

verus! {

/// The state that is signalled when the transport runs.
pub const BARRIER_LIBP2P_READY: &'static str = "Started libp2p";

/// The state that is signalled when the topology is known.
pub const BARRIER_TOPOLOGY_READY: &'static str = "Topology generated";

/// What all queries of a node share.
pub open spec fn origin(
    datetime: Timestamp,
    node_id: usize,
    instance_info: InstanceInfo,
    run_id: Seq<char>,
) -> QueryView {
    query(datetime, Seq::empty()).text_tag("instance_peer_id"@, instance_info.peer_id@).text_tag(
        "instance_name"@,
        decimal(node_id as nat),
    ).text_tag("run_id"@, run_id)
}

/// What all queries of a node share.
pub fn make_origin(
    datetime: Timestamp,
    node_id: usize,
    instance_info: &InstanceInfo,
    run_id: &str,
) -> (shared: Origin)
    ensures
        shared@ == origin(datetime, node_id, *instance_info, run_id@),
{
    proof {
        reveal_strlit("");
        assert(""@ =~= Seq::empty());
    }
    Origin::new(datetime, "").add_text_tag(
        "instance_peer_id",
        instance_info.peer_id.as_str(),
    ).add_text_tag("instance_name", decimal_text(node_id as u128).as_str()).add_text_tag(
        "run_id",
        run_id,
    )
}

/// Queries for counter metrics.
pub fn queries_for_counter(
    datetime: Timestamp,
    family: &MetricFamily,
    node_id: usize,
    instance_info: &InstanceInfo,
    run_id: &str,
) -> (queries: Vec<WriteQuery>)
    requires
        family.all_count(),
    ensures
        query_views(queries@) == counter_points(
            origin(datetime, node_id, *instance_info, run_id@),
            *family,
        ),
{
    counter_queries(&make_origin(datetime, node_id, instance_info, run_id), family)
}

/// Queries for joined counter metrics: what `predicate` makes of the counters of the first family and
/// their partners in the second.
pub fn queries_for_counter_join<F: Fn(u64, u64) -> u64>(
    datetime: Timestamp,
    family1: &MetricFamily,
    family2: &MetricFamily,
    name: &str,
    node_id: usize,
    instance_info: &InstanceInfo,
    run_id: &str,
    predicate: F,
) -> (queries: Vec<WriteQuery>)
    requires
        family1.all_count(),
        partners_are_counters(family1.metrics@, family2.metrics@),
        forall|a: u64, b: u64| #[trigger] call_requires(predicate, (a, b)),
    ensures
        all_join(
            predicate,
            origin(datetime, node_id, *instance_info, run_id@).about(name@),
            joined_counters(family1.metrics@, family2.metrics@),
            query_views(queries@),
        ),
{
    join_queries(
        &make_origin(datetime, node_id, instance_info, run_id),
        family1,
        family2,
        name,
        predicate,
    )
}

/// Queries for gauge metrics.
pub fn queries_for_gauge(
    datetime: Timestamp,
    family: &MetricFamily,
    node_id: usize,
    instance_info: &InstanceInfo,
    run_id: &str,
    field_name: &str,
) -> (queries: Vec<WriteQuery>)
    requires
        family.all_measure(),
    ensures
        query_views(queries@) == gauge_points(
            origin(datetime, node_id, *instance_info, run_id@),
            field_name@,
            *family,
        ),
{
    gauge_queries(&make_origin(datetime, node_id, instance_info, run_id), family, field_name)
}

/// Queries for histogram metrics.
pub fn queries_for_histogram(
    datetime: Timestamp,
    family: &MetricFamily,
    node_id: usize,
    instance_info: &InstanceInfo,
    run_id: &str,
) -> (queries: Vec<WriteQuery>)
    requires
        family.all_histograms(),
    ensures
        query_views(queries@) == histogram_points(
            origin(datetime, node_id, *instance_info, run_id@).about(family.name@),
            family.metrics@,
        ),
{
    histogram_queries(&make_origin(datetime, node_id, instance_info, run_id), family)
}

/// The data point that sets a counter of a topic to zero.
pub open spec fn zero_point(origin: QueryView, name: Seq<char>, topic: Seq<char>) -> QueryView {
    origin.about(name).text_tag("hash"@, topic).field("count"@, TypeView::UnsignedInteger(0))
}

/// The query that sets a counter of a topic to zero.
pub fn initialise_counter(
    datetime: Timestamp,
    name: &str,
    topic: &str,
    node_id: usize,
    instance_info: &InstanceInfo,
    run_id: &str,
) -> (zero: WriteQuery)
    ensures
        zero@ == zero_point(
            origin(datetime, node_id, *instance_info, run_id@),
            name@,
            topic@,
        ),
{
    make_origin(datetime, node_id, instance_info, run_id).about(name).add_text_tag(
        "hash",
        topic,
    ).add_field("count", Type::UnsignedInteger(0))
}

/// The query that tells which node has which peer id.
pub fn record_instance_info(now: Timestamp, node_id: usize, peer_id: &str, run_id: &str) -> (info:
    WriteQuery)
    ensures
        info@ == query(now, "participants"@).text_tag("run_id"@, run_id@).text_field(
            "instance_name"@,
            decimal(node_id as nat),
        ).text_field("instance_peer_id"@, peer_id@),
{
    WriteQuery::new(now, "participants").add_text_tag("run_id", run_id).add_text_field(
        "instance_name",
        decimal_text(node_id as u128).as_str(),
    ).add_text_field("instance_peer_id", peer_id)
}

} // verus!
