//! Write queries of the simulation.

use super::InstanceInfo;
use crate::influx::{query, query_views, QueryView, Timestamp, Type, TypeView, WriteQuery};
use crate::openmetrics::MetricFamily;
use crate::ordered::{in_order_u64, sorted_keys_u64};
use crate::recording::{counter_points, counter_queries, Origin};
use crate::scoring::received::{per_epoch, PerEpoch};
use std::collections::BTreeMap;
use vstd::prelude::*;

verus! {

/// The state that is signalled when the transport runs.
pub const BARRIER_LIBP2P_READY: &'static str = "Started libp2p";

/// The state that is signalled when all nodes are connected.
pub const BARRIER_TOPOLOGY_READY: &'static str = "Topology generated";

/// What all queries about the metrics of a node share.
pub open spec fn origin(
    datetime: Timestamp,
    instance_info: InstanceInfo,
    run_id: Seq<char>,
) -> QueryView {
    query(datetime, Seq::empty()).text_tag("instance_peer_id"@, instance_info.peer_id@).text_tag(
        "run_id"@,
        run_id,
    )
}

/// What all queries about the metrics of a node share.
pub fn make_origin(datetime: Timestamp, instance_info: &InstanceInfo, run_id: &str) -> (shared:
    Origin)
    ensures
        shared@ == origin(datetime, *instance_info, run_id@),
{
    proof {
        reveal_strlit("");
        assert(""@ =~= Seq::empty());
    }
    Origin::new(datetime, "").add_text_tag(
        "instance_peer_id",
        instance_info.peer_id.as_str(),
    ).add_text_tag("run_id", run_id)
}

/// Queries for counter metrics.
pub fn queries_for_counter(
    datetime: Timestamp,
    family: &MetricFamily,
    instance_info: &InstanceInfo,
    run_id: &str,
) -> (queries: Vec<WriteQuery>)
    requires
        family.all_count(),
    ensures
        query_views(queries@) == counter_points(
            origin(datetime, *instance_info, run_id@),
            *family,
        ),
{
    counter_queries(&make_origin(datetime, instance_info, run_id), family)
}

/// The data point of an epoch: how many blocks were received in it.
pub open spec fn block_point(
    at: Timestamp,
    instance_info: InstanceInfo,
    run_id: Seq<char>,
    epoch: u64,
    count: nat,
) -> QueryView {
    query(at, "beacon_block"@).text_tag("instance_peer_id"@, instance_info.peer_id@).text_tag(
        "run_id"@,
        run_id,
    ).tag("epoch"@, TypeView::UnsignedInteger(epoch)).field(
        "count"@,
        TypeView::UnsignedInteger(count as u64),
    )
}

/// The query for an epoch.
pub fn block_query(
    at: Timestamp,
    instance_info: &InstanceInfo,
    run_id: &str,
    epoch: u64,
    count: usize,
) -> (record: WriteQuery)
    ensures
        record@ == block_point(at, *instance_info, run_id@, epoch, count as nat),
{
    WriteQuery::new(at, "beacon_block").add_text_tag(
        "instance_peer_id",
        instance_info.peer_id.as_str(),
    ).add_text_tag("run_id", run_id).add_tag("epoch", Type::UnsignedInteger(epoch)).add_field(
        "count",
        Type::UnsignedInteger(count as u64),
    )
}

/// The data points of the received blocks at one time, from the earliest epoch to the latest.
pub open spec fn block_points(
    now: Timestamp,
    instance_info: InstanceInfo,
    run_id: Seq<char>,
    received: Map<u64, Set<u64>>,
) -> Seq<QueryView> {
    in_order_u64(received.dom()).map_values(
        |epoch: u64| block_point(now, instance_info, run_id, epoch, received[epoch].len()),
    )
}

/// The times of epochs.
pub(crate) enum Dates<'a> {
    /// The same time for all.
    Same(Timestamp),
    /// The start of each.
    Starts(&'a BTreeMap<u64, Timestamp>),
}

impl<'a> Dates<'a> {
    /// Whether the time of an epoch is known.
    pub(crate) open spec fn knows(self, epoch: u64) -> bool {
        match self {
            Dates::Same(_) => true,
            Dates::Starts(starts) => starts@.contains_key(epoch),
        }
    }

    /// The time of an epoch.
    pub(crate) open spec fn date(self, epoch: u64) -> Timestamp {
        match self {
            Dates::Same(now) => now,
            Dates::Starts(starts) => starts@[epoch],
        }
    }

    /// The time of an epoch.
    fn get(&self, epoch: u64) -> (date: Timestamp)
        requires
            self.knows(epoch),
        ensures
            date == self.date(epoch),
    {
        match self {
            Dates::Same(now) => *now,
            Dates::Starts(starts) => *starts.get(&epoch).unwrap(),
        }
    }
}

/// Queries for the received blocks, from the earliest epoch to the latest.
pub(crate) fn block_queries(
    dates: &Dates,
    instance_info: &InstanceInfo,
    received_blocks: &PerEpoch,
    run_id: &str,
) -> (queries: Vec<WriteQuery>)
    requires
        forall|epoch: u64| #[trigger]
            per_epoch(received_blocks@).contains_key(epoch) ==> dates.knows(epoch),
    ensures
        query_views(queries@) == in_order_u64(per_epoch(received_blocks@).dom()).map_values(
            |epoch: u64|
                block_point(
                    dates.date(epoch),
                    *instance_info,
                    run_id@,
                    epoch,
                    per_epoch(received_blocks@)[epoch].len(),
                ),
        ),
{
    let ghost received = per_epoch(received_blocks@);
    let ghost as_point = |epoch: u64|
        block_point(dates.date(epoch), *instance_info, run_id@, epoch, received[epoch].len());
    let ghost points = in_order_u64(received.dom()).map_values(as_point);
    let epochs: Vec<u64> = sorted_keys_u64(received_blocks);
    let mut queries: Vec<WriteQuery> = Vec::new();
    let mut i: usize = 0;
    proof {
        assert(received.dom() =~= received_blocks@.dom());
        assert(query_views(queries@) =~= points.take(0));
    }
    while i < epochs.len()
        invariant
            forall|epoch: u64| #[trigger] received.contains_key(epoch) ==> dates.knows(epoch),
            received == per_epoch(received_blocks@),
            epochs@.to_set() == received_blocks@.dom(),
            epochs@ == in_order_u64(received.dom()),
            as_point == (|epoch: u64|
                block_point(
                    dates.date(epoch),
                    *instance_info,
                    run_id@,
                    epoch,
                    received[epoch].len(),
                )),
            points == epochs@.map_values(as_point),
            i <= epochs@.len(),
            query_views(queries@) == points.take(i as int),
        decreases epochs@.len() - i,
    {
        let epoch: u64 = epochs[i];
        proof {
            assert(epochs@.to_set().contains(epoch));
            assert(received.contains_key(epoch));
        }
        let count: usize = received_blocks.get(&epoch).unwrap().len();
        let point: WriteQuery = block_query(dates.get(epoch), instance_info, run_id, epoch, count);
        let ghost before = queries@;
        queries.push(point);
        proof {
            assert(point@ == points[i as int]);
            assert(query_views(queries@) =~= query_views(before).push(point@));
            assert(query_views(queries@) =~= points.take(i + 1));
        }
        i = i + 1;
    }
    assert(points.take(i as int) =~= points);
    queries
}

/// Queries for the received blocks at one time, from the earliest epoch to the latest.
pub fn queries_for_received_beacon_blocks(
    now: Timestamp,
    instance_info: &InstanceInfo,
    received_blocks: &PerEpoch,
    run_id: &str,
) -> (queries: Vec<WriteQuery>)
    ensures
        query_views(queries@) == block_points(
            now,
            *instance_info,
            run_id@,
            per_epoch(received_blocks@),
        ),
{
    block_queries(&Dates::Same(now), instance_info, received_blocks, run_id)
}

} // verus!
