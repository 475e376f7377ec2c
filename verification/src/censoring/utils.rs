//! Write queries of the censoring simulation.

use super::InstanceInfo;
use crate::influx::{query, query_views, EntryView, QueryView, Timestamp, TypeView, WriteQuery};
use crate::openmetrics::MetricFamily;
use crate::recording::{
    counter_points, counter_queries, gauge_points, gauge_queries, histogram_points,
    histogram_queries, Origin,
};
use vstd::prelude::*;

verus! {

/// The state that is signalled when the transport runs.
pub const BARRIER_STARTED_LIBP2P: &'static str = "Started libp2p";

/// The state that is signalled when the warm-up is over.
pub const BARRIER_WARMUP: &'static str = "Warmup";

/// The state that is signalled at the end.
pub const BARRIER_DONE: &'static str = "Done";

/// What all queries of an instance with a peer id and a name share.
pub open spec fn named_origin(
    datetime: Timestamp,
    peer_id: Seq<char>,
    name: Seq<char>,
    run_id: Seq<char>,
) -> QueryView {
    query(datetime, Seq::empty()).text_tag("instance_peer_id"@, peer_id).text_tag(
        "instance_name"@,
        name,
    ).text_tag("run_id"@, run_id)
}

/// What all queries of an instance with a peer id and a name share.
pub fn make_named_origin(datetime: Timestamp, peer_id: &str, name: &str, run_id: &str) -> (shared:
    Origin)
    ensures
        shared@ == named_origin(datetime, peer_id@, name@, run_id@),
{
    proof {
        reveal_strlit("");
        assert(""@ =~= Seq::empty());
    }
    Origin::new(datetime, "").add_text_tag("instance_peer_id", peer_id).add_text_tag(
        "instance_name",
        name,
    ).add_text_tag("run_id", run_id)
}

/// What all queries of an instance share.
pub open spec fn origin(
    datetime: Timestamp,
    instance_info: InstanceInfo,
    run_id: Seq<char>,
) -> QueryView {
    named_origin(datetime, instance_info.peer_id@, instance_info.name@, run_id)
}

/// What all queries of an instance share.
pub fn make_origin(datetime: Timestamp, instance_info: &InstanceInfo, run_id: &str) -> (shared:
    Origin)
    ensures
        shared@ == origin(datetime, *instance_info, run_id@),
{
    make_named_origin(
        datetime,
        instance_info.peer_id.as_str(),
        instance_info.name.as_str(),
        run_id,
    )
}

/// Queries for counter metrics.
pub fn queries_for_counter(
    datetime: Timestamp,
    family: &MetricFamily,
    instance_info: &InstanceInfo,
    run_id: &str,
) -> (queries: Vec<WriteQuery>)
    requires
        family.all_count(),
    ensures
        query_views(queries@) == counter_points(
            origin(datetime, *instance_info, run_id@),
            *family,
        ),
{
    counter_queries(&make_origin(datetime, instance_info, run_id), family)
}

/// Queries for gauge metrics.
pub fn queries_for_gauge(
    datetime: Timestamp,
    family: &MetricFamily,
    instance_info: &InstanceInfo,
    run_id: &str,
    field_name: &str,
) -> (queries: Vec<WriteQuery>)
    requires
        family.all_measure(),
    ensures
        query_views(queries@) == gauge_points(
            origin(datetime, *instance_info, run_id@),
            field_name@,
            *family,
        ),
{
    gauge_queries(&make_origin(datetime, instance_info, run_id), family, field_name)
}

/// Queries for histogram metrics.
pub fn queries_for_histogram(
    datetime: Timestamp,
    family: &MetricFamily,
    instance_info: &InstanceInfo,
    run_id: &str,
) -> (queries: Vec<WriteQuery>)
    requires
        family.all_histograms(),
    ensures
        query_views(queries@) == histogram_points(
            origin(datetime, *instance_info, run_id@).about(family.name@),
            family.metrics@,
        ),
{
    histogram_queries(&make_origin(datetime, instance_info, run_id), family)
}

/// The query that tells which instance has which peer id. Both are fields, since a tag alone cannot
/// be selected.
pub fn record_instance_info(now: Timestamp, instance_info: &InstanceInfo, run_id: &str) -> (info:
    WriteQuery)
    ensures
        info@ == query(now, "participants"@).text_tag("run_id"@, run_id@).text_field(
            "instance_name"@,
            instance_info.name@,
        ).text_field("instance_peer_id"@, instance_info.peer_id@),
{
    WriteQuery::new(now, "participants").add_text_tag("run_id", run_id).add_text_field(
        "instance_name",
        instance_info.name.as_str(),
    ).add_text_field("instance_peer_id", instance_info.peer_id.as_str())
}

/// What all queries of an instance share: the time, and the peer, its name and the run as tags.
pub proof fn queries_share_their_origin(
    now: Timestamp,
    instance_info: InstanceInfo,
    peer_id: Seq<char>,
    name: Seq<char>,
    run_id: Seq<char>,
)
    ensures
        ({
            let shared = named_origin(now, peer_id, name, run_id);
            &&& shared.timestamp == now
            &&& shared.measurement.len() == 0
            &&& shared.tags == seq![
                EntryView { name: "instance_peer_id"@, value: TypeView::Text(peer_id) },
                EntryView { name: "instance_name"@, value: TypeView::Text(name) },
                EntryView { name: "run_id"@, value: TypeView::Text(run_id) },
            ]
            &&& shared.fields.len() == 0
        }),
        origin(now, instance_info, run_id) == named_origin(
            now,
            instance_info.peer_id@,
            instance_info.name@,
            run_id,
        ),
{
    assert(named_origin(now, peer_id, name, run_id).tags =~= seq![
        EntryView { name: "instance_peer_id"@, value: TypeView::Text(peer_id) },
        EntryView { name: "instance_name"@, value: TypeView::Text(name) },
        EntryView { name: "run_id"@, value: TypeView::Text(run_id) },
    ]);
}

} // verus!
