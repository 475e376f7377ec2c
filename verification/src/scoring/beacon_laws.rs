//! What holds of the messages that honest nodes send, receive and record.

use super::beacon_node::{
    all_starts_known, destination, known_topic, nothing_received, score_field, score_point, subnet_points, PeerScore,
    ReceivedView, ATTESTATION_SUBNETS, PRUNE_BACKOFF, SCORE_INTERVAL, SLOT, SLOTS_PER_EPOCH,
    SYNC_SUBNETS,
};
use super::received::{epoch_point, epoch_points};
use super::topic::{all_topics, Topic};
use super::utils::{edge_point, origin};
use crate::eth_consensus::Message;
use crate::influx::{EntryView, QueryView, Timestamp, TypeView};
use crate::ordered::{in_order_u64, increasing_u64, lemma_in_order_u64};
use crate::text::decimal;
use vstd::prelude::*;

verus! {

/// The numbers of the simulation: four subnets of each kind, slots of twelve seconds, 32 of them in an
/// epoch.
pub proof fn network_is_dimensioned()
    ensures
        ATTESTATION_SUBNETS == 4,
        SYNC_SUBNETS == 4,
        SLOT == 12,
        SLOTS_PER_EPOCH == 32,
        SCORE_INTERVAL == 3,
        PRUNE_BACKOFF == 60,
{
}

/// The kind of a message.
pub open spec fn kind_of(message: Message) -> int {
    match message {
        Message::BeaconBlock { .. } => 0,
        Message::AggregateAndProofAttestation { .. } => 1,
        Message::Attestation { .. } => 2,
        Message::SignedContributionAndProof { .. } => 3,
        Message::SyncCommitteeMessage { .. } => 4,
    }
}

/// The subnet of a message, where it has one.
pub open spec fn subnet_of(message: Message) -> Option<u64> {
    match message {
        Message::BeaconBlock { .. } => None,
        Message::AggregateAndProofAttestation { subnet, .. } => Some(subnet),
        Message::Attestation { subnet, .. } => Some(subnet),
        Message::SignedContributionAndProof { subnet, .. } => Some(subnet),
        Message::SyncCommitteeMessage { subnet, .. } => Some(subnet),
    }
}

/// The validator that sends a message.
pub open spec fn sender_of(message: Message) -> u64 {
    match message {
        Message::BeaconBlock { proposer, .. } => proposer,
        Message::AggregateAndProofAttestation { aggregator, .. } => aggregator,
        Message::Attestation { attester, .. } => attester,
        Message::SignedContributionAndProof { validator, .. } => validator,
        Message::SyncCommitteeMessage { validator, .. } => validator,
    }
}

/// The slot that a message is for.
pub open spec fn slot_of(message: Message) -> u64 {
    match message {
        Message::BeaconBlock { slot, .. } => slot,
        Message::AggregateAndProofAttestation { slot, .. } => slot,
        Message::Attestation { slot, .. } => slot,
        Message::SignedContributionAndProof { slot, .. } => slot,
        Message::SyncCommitteeMessage { slot, .. } => slot,
    }
}

/// Messages go to the same topic exactly where they are of the same kind and subnet. The name of the
/// topic tells both, and the message keeps its validator and its slot.
pub proof fn messages_go_to_their_own_topic(a: Message, b: Message)
    ensures
        destination(a).0 == destination(b).0 <==> kind_of(a) == kind_of(b) && subnet_of(a)
            == subnet_of(b),
        destination(a).0.name() == match subnet_of(a) {
            None => "\"Blocks\""@,
            Some(subnet) => (if kind_of(a) == 1 {
                "{\"Aggregates\":"@
            } else if kind_of(a) == 2 {
                "{\"Attestations\":"@
            } else if kind_of(a) == 3 {
                "{\"SignedContributionAndProof\":"@
            } else {
                "{\"SyncMessages\":"@
            }) + decimal(subnet as nat) + "}"@,
        },
        destination(a).1 == sender_of(a),
        destination(a).2 == slot_of(a),
{
}

/// Whether a value is noted in an epoch.
pub open spec fn holds(map: Map<u64, Set<u64>>, epoch: u64, value: u64) -> bool {
    map.contains_key(epoch) && map[epoch].contains(value)
}

/// Whether a value was received in the epoch of a slot, 32 slots being an epoch.
pub open spec fn in_epoch_of(map: Map<u64, Set<u64>>, slot: u64, value: u64) -> bool {
    map.contains_key(slot / 32) && map[slot / 32].contains(value)
}

/// Where the messages of a kind and subnet are noted.
pub open spec fn notes_of(received: ReceivedView, message: Message) -> Map<u64, Set<u64>> {
    match message {
        Message::BeaconBlock { .. } => received.beacon_blocks,
        Message::AggregateAndProofAttestation { subnet, .. } => received.aggregates[subnet as int],
        Message::Attestation { subnet, .. } => received.attestations[subnet as int],
        Message::SignedContributionAndProof { subnet, .. } => {
            received.sync_committee_aggregates[subnet as int]
        },
        Message::SyncCommitteeMessage { subnet, .. } => {
            received.sync_committee_messages[subnet as int]
        },
    }
}

/// What is noted of a message: the slot of a block, the validator of others.
pub open spec fn note_of(message: Message) -> u64 {
    if message is BeaconBlock {
        slot_of(message)
    } else {
        sender_of(message)
    }
}

/// A message that arrives on its topic is noted under its own kind and subnet, in the epoch of its
/// slot. No other note changes, and it was received before exactly where that note was there.
pub proof fn messages_are_counted_by_their_kind(received: ReceivedView, a: Message, b: Message)
    requires
        received.well_formed(),
        known_topic(destination(a).0),
        known_topic(destination(b).0),
    ensures
        ({
            let (topic, validator, slot) = destination(a);
            let after = received.with(topic, validator, slot);
            &&& received.has(topic, validator, slot) <==> in_epoch_of(
                notes_of(received, a),
                slot_of(a),
                note_of(a),
            )
            &&& in_epoch_of(notes_of(after, a), slot_of(a), note_of(a))
            &&& forall|epoch: u64, value: u64| #[trigger]
                holds(notes_of(after, b), epoch, value) <==> holds(
                    notes_of(received, b),
                    epoch,
                    value,
                ) || (kind_of(a) == kind_of(b) && subnet_of(a) == subnet_of(b) && epoch == slot_of(
                    a,
                ) / 32 && value == note_of(a))
            &&& forall|epoch: u64| #[trigger]
                notes_of(after, b).contains_key(epoch) <==> notes_of(received, b).contains_key(
                    epoch,
                ) || (kind_of(a) == kind_of(b) && subnet_of(a) == subnet_of(b) && epoch == slot_of(
                    a,
                ) / 32)
        }),
{
}

/// A topic is known where it has one of the four subnets of its kind.
pub proof fn known_topics_have_a_subnet(message: Message)
    ensures
        known_topic(destination(message).0) <==> match subnet_of(message) {
            None => true,
            Some(subnet) => subnet < 4,
        },
{
}

/// At first nothing is noted, on any subnet.
pub proof fn nothing_is_noted_at_first(subnets: u64)
    ensures
        nothing_received(subnets).len() == subnets,
        forall|subnet: int, epoch: u64|
            0 <= subnet < subnets ==> !(#[trigger] nothing_received(subnets)[subnet].contains_key(
                epoch,
            )),
{
}

/// The topics to subscribe to: blocks, and of each subnet both topics, each once.
pub proof fn all_topics_are_subscribed(attestation_subnets: u64, sync_subnets: u64, topic: Topic)
    requires
        2 * attestation_subnets <= u64::MAX,
        2 * sync_subnets <= u64::MAX,
    ensures
        all_topics(attestation_subnets, sync_subnets).contains(topic) <==> match topic {
            Topic::Blocks => true,
            Topic::Attestations(subnet) | Topic::Aggregates(subnet) => subnet < attestation_subnets,
            Topic::SyncMessages(subnet) | Topic::SignedContributionAndProof(subnet) => subnet
                < sync_subnets,
        },
        all_topics(attestation_subnets, sync_subnets).len() == 1 + 2 * attestation_subnets + 2
            * sync_subnets,
        all_topics(attestation_subnets, sync_subnets)[0] == Topic::Blocks,
        forall|i: int|
            0 <= i < attestation_subnets ==> {
                &&& #[trigger] all_topics(attestation_subnets, sync_subnets)[1 + 2 * i]
                    == Topic::Attestations(i as u64)
                &&& all_topics(attestation_subnets, sync_subnets)[2 + 2 * i] == Topic::Aggregates(
                    i as u64,
                )
            },
        forall|i: int|
            0 <= i < sync_subnets ==> {
                &&& #[trigger] all_topics(
                    attestation_subnets,
                    sync_subnets,
                )[1 + 2 * attestation_subnets + 2 * i] == Topic::SyncMessages(i as u64)
                &&& all_topics(attestation_subnets, sync_subnets)[2 + 2 * attestation_subnets + 2
                    * i] == Topic::SignedContributionAndProof(i as u64)
            },
{
    let all = all_topics(attestation_subnets, sync_subnets);
    let i: int = match topic {
        Topic::Blocks => 0,
        Topic::Attestations(subnet) => 1 + 2 * subnet,
        Topic::Aggregates(subnet) => 2 + 2 * subnet,
        Topic::SyncMessages(subnet) => 1 + 2 * attestation_subnets + 2 * subnet,
        Topic::SignedContributionAndProof(subnet) => 2 + 2 * attestation_subnets + 2 * subnet,
    };
    if all.contains(topic) {
        let k = choose|k: int| 0 <= k < all.len() && all[k] == topic;
        assert(all[k] == topic);
    }
    if 0 <= i < all.len() {
        assert(all.contains(all[i]));
    }
}

/// A text under a name.
pub open spec fn text_entry(name: Seq<char>, value: Seq<char>) -> EntryView {
    EntryView { name, value: TypeView::Text(value) }
}

/// What is recorded of an epoch: at the start of the epoch, how many messages were received in it. It is
/// found by the peer, the run and the epoch.
pub proof fn epochs_are_recorded(
    start: Timestamp,
    measurement: Seq<char>,
    peer_id: Seq<char>,
    run_id: Seq<char>,
    epoch: u64,
    count: nat,
)
    ensures
        ({
            let point = epoch_point(start, measurement, peer_id, run_id, epoch, count);
            &&& point.timestamp == start
            &&& point.measurement == measurement
            &&& point.tags == seq![
                text_entry("peer_id"@, peer_id),
                text_entry("run_id"@, run_id),
                EntryView { name: "epoch"@, value: TypeView::UnsignedInteger(epoch) },
            ]
            &&& point.fields == seq![
                EntryView { name: "count"@, value: TypeView::UnsignedInteger(count as u64) },
            ]
        }),
{
}

/// There is one record for each epoch in which something was received, from the earliest to the latest.
pub proof fn each_epoch_is_recorded_once(
    starts: Map<u64, Timestamp>,
    measurement: Seq<char>,
    peer_id: Seq<char>,
    run_id: Seq<char>,
    map: Map<u64, Set<u64>>,
    epochs: Seq<u64>,
)
    requires
        increasing_u64(epochs),
        forall|epoch: u64| map.contains_key(epoch) <==> #[trigger] epochs.contains(epoch),
    ensures
        ({
            let points = epoch_points(starts, measurement, peer_id, run_id, map);
            &&& points.len() == epochs.len()
            &&& forall|i: int|
                0 <= i < epochs.len() ==> #[trigger] points[i] == epoch_point(
                    starts[epochs[i]],
                    measurement,
                    peer_id,
                    run_id,
                    epochs[i],
                    map[epochs[i]].len(),
                )
        }),
{
    assert(epochs.to_set() =~= map.dom());
    lemma_in_order_u64(epochs);
}

/// Each subnet is recorded in order, under a measurement that ends in its number.
pub proof fn each_subnet_is_recorded(
    starts: Map<u64, Timestamp>,
    measurement: Seq<char>,
    peer_id: Seq<char>,
    run_id: Seq<char>,
    messages: Seq<Map<u64, Set<u64>>>,
    subnet: nat,
)
    ensures
        subnet_points(starts, measurement, peer_id, run_id, messages, 0).len() == 0,
        subnet_points(starts, measurement, peer_id, run_id, messages, subnet + 1) == subnet_points(
            starts,
            measurement,
            peer_id,
            run_id,
            messages,
            subnet,
        ) + epoch_points(
            starts,
            "scoring_"@ + measurement + "_"@ + decimal(subnet),
            peer_id,
            run_id,
            messages[subnet as int],
        ),
{
}

/// The scores of all peers are recorded at once, one field for each peer. Attackers are marked.
pub proof fn scores_are_recorded(
    now: Timestamp,
    peer_id: Seq<char>,
    run_id: Seq<char>,
    attackers: Seq<String>,
    scores: Seq<PeerScore>,
)
    ensures
        ({
            let point = score_point(now, peer_id, run_id, attackers, scores);
            &&& point.timestamp == now
            &&& point.measurement == "scoring_scores"@
            &&& point.tags == seq![text_entry("peer_id"@, peer_id), text_entry("run_id"@, run_id)]
            &&& point.fields.len() == scores.len()
            &&& forall|i: int|
                0 <= i < scores.len() ==> {
                    let field = #[trigger] point.fields[i];
                    let attacks = exists|k: int|
                        0 <= k < attackers.len() && (#[trigger] attackers[k])@ == scores[i].peer_id@;
                    &&& field.value == TypeView::Float(scores[i].score)
                    &&& attacks ==> field.name == "attacker_"@ + scores[i].peer_id@
                    &&& !attacks ==> field.name == scores[i].peer_id@
                }
        }),
{
    assert(score_point(now, peer_id, run_id, attackers, scores).tags =~= seq![
        text_entry("peer_id"@, peer_id),
        text_entry("run_id"@, run_id),
    ]);
}

/// What all metrics of a node share: their measurements start with `scoring_`, and they are found by
/// the peer and the run.
pub proof fn metrics_share_their_origin(now: Timestamp, peer_id: Seq<char>, run_id: Seq<char>)
    ensures
        ({
            let shared = origin(now, peer_id, run_id);
            &&& shared.timestamp == now
            &&& shared.measurement == "scoring_"@
            &&& shared.tags == seq![text_entry("peer_id"@, peer_id), text_entry("run_id"@, run_id)]
            &&& shared.fields.len() == 0
        }),
{
    assert(origin(now, peer_id, run_id).tags =~= seq![
        text_entry("peer_id"@, peer_id),
        text_entry("run_id"@, run_id),
    ]);
}

/// An edge of the graph leads from the node that dials to the node that it dials.
pub proof fn edges_lead_from_source_to_target(
    now: Timestamp,
    run_id: Seq<char>,
    id: u32,
    source: Seq<char>,
    target: Seq<char>,
)
    ensures
        ({
            let edge = edge_point(now, run_id, id, source, target);
            &&& edge.timestamp == now
            &&& edge.measurement == "scoring_topology_edge"@
            &&& edge.tags == seq![text_entry("run_id"@, run_id)]
            &&& edge.fields == seq![
                text_entry("id"@, decimal(id as nat)),
                text_entry("source"@, source),
                text_entry("target"@, target),
            ]
        }),
{
    let edge = edge_point(now, run_id, id, source, target);
    assert(edge.tags =~= seq![text_entry("run_id"@, run_id)]);
    assert(edge.fields =~= seq![
        text_entry("id"@, decimal(id as nat)),
        text_entry("source"@, source),
        text_entry("target"@, target),
    ]);
}

/// Where all starts are known, each epoch in which something was noted, of whatever kind and subnet, has
/// one.
pub proof fn noted_epochs_have_starts(
    starts: Map<u64, Timestamp>,
    received: ReceivedView,
    message: Message,
    epoch: u64,
)
    requires
        received.well_formed(),
        all_starts_known(starts, received),
        known_topic(destination(message).0),
        notes_of(received, message).contains_key(epoch),
    ensures
        starts.contains_key(epoch),
{
}

/// Where every epoch has a start, all starts are known.
pub proof fn known_starts_are_enough(starts: Map<u64, Timestamp>, received: ReceivedView)
    requires
        forall|epoch: u64| #[trigger] starts.contains_key(epoch),
    ensures
        all_starts_known(starts, received),
{
}

} // verus!
