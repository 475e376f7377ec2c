//! What holds of the records of the simulation to find score parameters.

use super::honest::{
    dated_block_points, ATTESTATION_SUBNETS, HISTORY_LENGTH, MAX_TRANSMIT_SIZE, PRUNE_BACKOFF,
    SCORE_INTERVAL, SLOTS_PER_EPOCH, SLOT_DURATION, SYNC_SUBNETS,
};
use super::utils::{block_point, block_points, origin};
use super::InstanceInfo;
use crate::influx::{EntryView, Timestamp, TypeView};
use crate::ordered::{increasing_u64, lemma_in_order_u64};
use crate::scoring::beacon_laws::text_entry;
use vstd::prelude::*;

verus! {

/// The numbers of the simulation: four subnets of each kind, slots of six seconds, two of them in an
/// epoch.
pub proof fn network_is_dimensioned()
    ensures
        ATTESTATION_SUBNETS == 4,
        SYNC_SUBNETS == 4,
        SLOT_DURATION == 6,
        SLOTS_PER_EPOCH == 2,
        SCORE_INTERVAL == 1,
        PRUNE_BACKOFF == 60,
        HISTORY_LENGTH == 12,
        MAX_TRANSMIT_SIZE == 10 * 1024 * 1024,
{
}

/// What all queries of a node share: the time, and the peer and the run as tags.
pub proof fn queries_share_their_origin(now: Timestamp, info: InstanceInfo, run_id: Seq<char>)
    ensures
        ({
            let shared = origin(now, info, run_id);
            &&& shared.timestamp == now
            &&& shared.measurement.len() == 0
            &&& shared.tags == seq![
                text_entry("instance_peer_id"@, info.peer_id@),
                text_entry("run_id"@, run_id),
            ]
            &&& shared.fields.len() == 0
        }),
{
    assert(origin(now, info, run_id).tags =~= seq![
        text_entry("instance_peer_id"@, info.peer_id@),
        text_entry("run_id"@, run_id),
    ]);
}

/// What is recorded of an epoch: how many blocks were received in it.
pub proof fn blocks_of_an_epoch_are_counted(
    at: Timestamp,
    info: InstanceInfo,
    run_id: Seq<char>,
    epoch: u64,
    count: nat,
)
    ensures
        ({
            let point = block_point(at, info, run_id, epoch, count);
            &&& point.timestamp == at
            &&& point.measurement == "beacon_block"@
            &&& point.tags == seq![
                text_entry("instance_peer_id"@, info.peer_id@),
                text_entry("run_id"@, run_id),
                EntryView { name: "epoch"@, value: TypeView::UnsignedInteger(epoch) },
            ]
            &&& point.fields == seq![
                EntryView { name: "count"@, value: TypeView::UnsignedInteger(count as u64) },
            ]
        }),
{
    let point = block_point(at, info, run_id, epoch, count);
    assert(point.tags =~= seq![
        text_entry("instance_peer_id"@, info.peer_id@),
        text_entry("run_id"@, run_id),
        EntryView { name: "epoch"@, value: TypeView::UnsignedInteger(epoch) },
    ]);
}

/// There is one record for each epoch in which a block was received, from the earliest to the latest: at
/// the same time for all, or at the start of its epoch.
pub proof fn each_epoch_is_recorded_once(
    now: Timestamp,
    starts: Map<u64, Timestamp>,
    info: InstanceInfo,
    run_id: Seq<char>,
    received: Map<u64, Set<u64>>,
    epochs: Seq<u64>,
)
    requires
        increasing_u64(epochs),
        forall|epoch: u64| received.contains_key(epoch) <==> #[trigger] epochs.contains(epoch),
    ensures
        ({
            let points = block_points(now, info, run_id, received);
            let dated = dated_block_points(starts, info, run_id, received);
            &&& points.len() == epochs.len() && dated.len() == epochs.len()
            &&& forall|i: int|
                0 <= i < epochs.len() ==> #[trigger] points[i] == block_point(
                    now,
                    info,
                    run_id,
                    epochs[i],
                    received[epochs[i]].len(),
                )
            &&& forall|i: int|
                0 <= i < epochs.len() ==> #[trigger] dated[i] == block_point(
                    starts[epochs[i]],
                    info,
                    run_id,
                    epochs[i],
                    received[epochs[i]].len(),
                )
        }),
{
    assert(epochs.to_set() =~= received.dom());
    lemma_in_order_u64(epochs);
}

} // verus!
