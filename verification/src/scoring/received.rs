//! Which messages were received in which epoch.

use crate::influx::{query, query_views, QueryView, Timestamp, Type, TypeView, WriteQuery};
use crate::ordered::{in_order_u64, sorted_keys_u64};
use std::collections::{BTreeMap, BTreeSet};
use vstd::prelude::*;

verus! {

/// What was received, by epoch: slots or validators.
pub type PerEpoch = BTreeMap<u64, BTreeSet<u64>>;

/// What was received, by epoch.
pub open spec fn per_epoch(map: Map<u64, BTreeSet<u64>>) -> Map<u64, Set<u64>> {
    map.map_values(|values: BTreeSet<u64>| values@)
}

/// What was received, by subnet and epoch.
pub open spec fn per_subnet(subnets: Seq<PerEpoch>) -> Seq<Map<u64, Set<u64>>> {
    subnets.map_values(|map: PerEpoch| per_epoch(map@))
}

/// Whether a value was received in an epoch.
pub open spec fn noted(map: Map<u64, Set<u64>>, epoch: u64, value: u64) -> bool {
    map.contains_key(epoch) && map[epoch].contains(value)
}

/// What was received, with one more value.
pub open spec fn with_value(map: Map<u64, Set<u64>>, epoch: u64, value: u64) -> Map<u64, Set<u64>> {
    map.insert(
        epoch,
        if map.contains_key(epoch) {
            map[epoch].insert(value)
        } else {
            set![value]
        },
    )
}

/// Receiving a value twice is receiving it once, and nothing else is forgotten.
pub proof fn receiving_twice_is_once(map: Map<u64, Set<u64>>, epoch: u64, value: u64)
    ensures
        noted(with_value(map, epoch, value), epoch, value),
        with_value(with_value(map, epoch, value), epoch, value) == with_value(map, epoch, value),
        forall|e: u64, v: u64|
            (e != epoch || v != value) ==> (#[trigger] noted(with_value(map, epoch, value), e, v)
                <==> noted(map, e, v)),
{
    let once = with_value(map, epoch, value);
    assert(once[epoch].insert(value) =~= once[epoch]);
    assert(with_value(once, epoch, value) =~= once);
}

/// Notes that a value was received in an epoch. Tells whether it is new.
pub fn note(map: &mut PerEpoch, epoch: u64, value: u64) -> (new: bool)
    ensures
        per_epoch(final(map)@) == with_value(per_epoch(old(map)@), epoch, value),
        new == !noted(per_epoch(old(map)@), epoch, value),
{
    let mut values: BTreeSet<u64> = match map.remove(&epoch) {
        Some(values) => values,
        None => BTreeSet::new(),
    };
    let new: bool = values.insert(value);
    map.insert(epoch, values);
    proof {
        let before = per_epoch(old(map)@);
        if !before.contains_key(epoch) {
            assert(values@ =~= set![value]);
        }
        assert(per_epoch(map@) =~= with_value(before, epoch, value));
    }
    new
}

/// The data point of an epoch: how much was received in it. Its time is the start of the epoch.
pub open spec fn epoch_point(
    start: Timestamp,
    measurement: Seq<char>,
    peer_id: Seq<char>,
    run_id: Seq<char>,
    epoch: u64,
    count: nat,
) -> QueryView {
    query(start, measurement).text_tag("peer_id"@, peer_id).text_tag("run_id"@, run_id).tag(
        "epoch"@,
        TypeView::UnsignedInteger(epoch),
    ).field("count"@, TypeView::UnsignedInteger(count as u64))
}

/// The data points of what was received, from the earliest epoch to the latest.
pub open spec fn epoch_points(
    starts: Map<u64, Timestamp>,
    measurement: Seq<char>,
    peer_id: Seq<char>,
    run_id: Seq<char>,
    map: Map<u64, Set<u64>>,
) -> Seq<QueryView> {
    in_order_u64(map.dom()).map_values(
        |epoch: u64|
            epoch_point(starts[epoch], measurement, peer_id, run_id, epoch, map[epoch].len()),
    )
}

/// Whether the start of every epoch in which something was received is known.
pub open spec fn starts_known(starts: Map<u64, Timestamp>, map: Map<u64, Set<u64>>) -> bool {
    forall|epoch: u64| #[trigger] map.contains_key(epoch) ==> starts.contains_key(epoch)
}

/// Queries for what was received, from the earliest epoch to the latest.
pub fn epoch_queries(
    starts: &BTreeMap<u64, Timestamp>,
    measurement: &str,
    peer_id: &str,
    run_id: &str,
    map: &PerEpoch,
) -> (queries: Vec<WriteQuery>)
    requires
        starts_known(starts@, per_epoch(map@)),
    ensures
        query_views(queries@) == epoch_points(
            starts@,
            measurement@,
            peer_id@,
            run_id@,
            per_epoch(map@),
        ),
{
    let epochs: Vec<u64> = sorted_keys_u64(map);
    let mut queries: Vec<WriteQuery> = Vec::new();
    let ghost points = epoch_points(starts@, measurement@, peer_id@, run_id@, per_epoch(map@));
    let mut i: usize = 0;
    proof {
        assert(per_epoch(map@).dom() =~= map@.dom());
        assert(query_views(queries@) =~= points.take(0));
    }
    while i < epochs.len()
        invariant
            starts_known(starts@, per_epoch(map@)),
            epochs@.to_set() == map@.dom(),
            epochs@ == in_order_u64(per_epoch(map@).dom()),
            points == epoch_points(starts@, measurement@, peer_id@, run_id@, per_epoch(map@)),
            i <= epochs@.len(),
            query_views(queries@) == points.take(i as int),
        decreases epochs@.len() - i,
    {
        let epoch: u64 = epochs[i];
        proof {
            assert(epochs@.to_set().contains(epoch));
            assert(per_epoch(map@).contains_key(epoch));
        }
        let count: usize = map.get(&epoch).unwrap().len();
        let point: WriteQuery = WriteQuery::new(
            *starts.get(&epoch).unwrap(),
            measurement,
        ).add_text_tag("peer_id", peer_id).add_text_tag("run_id", run_id).add_tag(
            "epoch",
            Type::UnsignedInteger(epoch),
        ).add_field("count", Type::UnsignedInteger(count as u64));
        let ghost before = queries@;
        queries.push(point);
        proof {
            assert(point@ == points[i as int]);
            assert(query_views(queries@) =~= query_views(before).push(point@));
            assert(query_views(queries@) =~= points.take(i + 1));
        }
        i = i + 1;
    }
    assert(points.take(i as int) =~= points);
    queries
}

} // verus!
