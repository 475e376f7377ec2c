//! What holds of the messages and the records of the consensus simulation.

use super::network::metrics::{
    is_metrics_info, topic_zero_points, zero_points, zeroed_metrics, RecordMetricsInfo,
};
use super::network::{all_topics, delay_limit, last_slash, Topic};
use super::node_run::{json_message, json_numbers};
use super::utils::{origin, zero_point};
use super::{network, node_run, InstanceInfo, Message};
use crate::clock::{is_date, later};
use crate::influx::{EntryView, QueryView, Timestamp, TypeView};
use crate::openmetrics::MetricFamily;
use crate::scoring::beacon_laws::{kind_of, sender_of, subnet_of, text_entry};
use crate::text::{decimal, read_number};
use vstd::prelude::*;

verus! {

/// Messages go to the same topic exactly where they are of the same kind and subnet, aggregates to one
/// topic for all subnets. The name of the topic tells both, and the message keeps its validator.
pub proof fn messages_go_to_their_own_topic(a: Message, b: Message)
    ensures
        network::destination(a).0 == network::destination(b).0 <==> kind_of(a) == kind_of(b) && (
        kind_of(a) == 1 || subnet_of(a) == subnet_of(b)),
        network::destination(a).1 == sender_of(a),
        network::destination(a).0.name() == match a {
            Message::BeaconBlock { .. } => "Blocks"@,
            Message::AggregateAndProofAttestation { .. } => "Aggregates"@,
            Message::Attestation { subnet, .. } => "Attestations/"@ + decimal(subnet as nat),
            Message::SignedContributionAndProof { subnet, .. } => "SignedContributionAndProof/"@
                + decimal(subnet as nat),
            Message::SyncCommitteeMessage { subnet, .. } => "SyncMessages/"@ + decimal(
                subnet as nat,
            ),
        },
{
}

/// With messages in JSON each subnet has its own topic for aggregates too.
pub proof fn json_messages_go_to_their_own_topic(a: Message, b: Message)
    ensures
        node_run::destination(a).0 == node_run::destination(b).0 <==> kind_of(a) == kind_of(b)
            && subnet_of(a) == subnet_of(b),
        node_run::destination(a).1 == sender_of(a),
        node_run::destination(a).0.name() == match a {
            Message::BeaconBlock { .. } => "\"Blocks\""@,
            Message::AggregateAndProofAttestation { subnet, .. } => "{\"Aggregates\":"@ + decimal(
                subnet as nat,
            ) + "}"@,
            Message::Attestation { subnet, .. } => "{\"Attestations\":"@ + decimal(subnet as nat)
                + "}"@,
            Message::SignedContributionAndProof { subnet, .. } => {
                "{\"SignedContributionAndProof\":"@ + decimal(subnet as nat) + "}"@
            },
            Message::SyncCommitteeMessage { subnet, .. } => "{\"SyncMessages\":"@ + decimal(
                subnet as nat,
            ) + "}"@,
        },
{
}

proof fn lemma_no_slash(text: Seq<char>)
    requires
        !text.contains('/'),
    ensures
        last_slash(text) is None,
    decreases text.len(),
{
    if text.len() > 0 {
        assert(text.contains(text.last()));
        assert forall|i: int| 0 <= i < text.drop_last().len() implies text.drop_last()[i]
            != '/' by {
            assert(text.contains(text[i]));
        }
        lemma_no_slash(text.drop_last());
    }
}

proof fn lemma_one_slash(kind: Seq<char>, tail: Seq<char>)
    requires
        !tail.contains('/'),
    ensures
        last_slash(kind.push('/') + tail) == Some(kind.len() as int),
    decreases tail.len(),
{
    let text = kind.push('/') + tail;
    if tail.len() == 0 {
        assert(text =~= kind.push('/'));
    } else {
        assert(tail.contains(tail.last()));
        assert forall|i: int| 0 <= i < tail.drop_last().len() implies tail.drop_last()[i]
            != '/' by {
            assert(tail.contains(tail[i]));
        }
        assert(text.drop_last() =~= kind.push('/') + tail.drop_last());
        lemma_one_slash(kind, tail.drop_last());
    }
}

/// Only `Blocks` and `Aggregates` are names of topics without a slash.
pub proof fn plain_names_are_two(text: Seq<char>)
    requires
        !text.contains('/'),
    ensures
        Topic::named(text) == if text == "Blocks"@ {
            Some(Topic::Blocks)
        } else if text == "Aggregates"@ {
            Some(Topic::Aggregates)
        } else {
            None
        },
{
    lemma_no_slash(text);
}

/// A name with a slash is one of three kinds before the last slash, and a number behind it.
pub proof fn subnet_names_are_a_kind_and_a_number(kind: Seq<char>, tail: Seq<char>)
    requires
        !tail.contains('/'),
    ensures
        ({
            let subnet = read_number(tail, u64::MAX as nat);
            Topic::named(kind.push('/') + tail) == if subnet is Err {
                None
            } else if kind == "Attestations"@ {
                Some(Topic::Attestations(subnet->Ok_0 as u64))
            } else if kind == "SyncMessages"@ {
                Some(Topic::SyncMessages(subnet->Ok_0 as u64))
            } else if kind == "SignedContributionAndProof"@ {
                Some(Topic::SignedContributionAndProof(subnet->Ok_0 as u64))
            } else {
                None
            }
        }),
{
    let text = kind.push('/') + tail;
    lemma_one_slash(kind, tail);
    assert(text.take(kind.len() as int) =~= kind);
    assert(text.skip(kind.len() as int + 1) =~= tail);
    assert(text[kind.len() as int] == '/');
    reveal_strlit("Blocks");
    reveal_strlit("Aggregates");
    assert(text != "Blocks"@) by {
        assert forall|i: int| 0 <= i < 6 implies "Blocks"@[i] != '/' by {}
    }
    assert(text != "Aggregates"@) by {
        assert forall|i: int| 0 <= i < 10 implies "Aggregates"@[i] != '/' by {}
    }
}

/// All topics: blocks and aggregates, then the four subnets of attestations, then of each of the four
/// sync committee subnets the messages and what they are aggregated to.
pub proof fn all_topics_are_subscribed()
    ensures
        all_topics() == seq![
            Topic::Blocks,
            Topic::Aggregates,
            Topic::Attestations(0),
            Topic::Attestations(1),
            Topic::Attestations(2),
            Topic::Attestations(3),
            Topic::SyncMessages(0),
            Topic::SignedContributionAndProof(0),
            Topic::SyncMessages(1),
            Topic::SignedContributionAndProof(1),
            Topic::SyncMessages(2),
            Topic::SignedContributionAndProof(2),
            Topic::SyncMessages(3),
            Topic::SignedContributionAndProof(3),
        ],
{
}

/// The delay stays below 50 milliseconds for messages of up to 300 bytes, below 80 for those of up to
/// 600, and below 500 for all others.
pub proof fn larger_messages_take_longer(size: usize)
    ensures
        delay_limit(size) == 50 <==> size <= 300,
        delay_limit(size) == 80 <==> 300 < size <= 600,
        delay_limit(size) == 500 <==> size > 600,
{
}

/// The JSON of a message holds the validator, then each byte of the payload, in order.
pub proof fn json_holds_each_byte(validator: u64, payload: Seq<u8>, byte: u8)
    ensures
        json_message(validator, payload) == "["@ + decimal(validator as nat) + ",["@
            + json_numbers(payload) + "]]"@,
        json_numbers(Seq::empty()) == Seq::<char>::empty(),
        json_numbers(payload.push(byte)) == if payload.len() == 0 {
            decimal(byte as nat)
        } else {
            json_numbers(payload) + ","@ + decimal(byte as nat)
        },
{
    assert(payload.push(byte).drop_last() =~= payload);
}

/// What all queries of a node share: the time, and the peer, the node and the run as tags.
pub proof fn queries_share_their_origin(
    now: Timestamp,
    node_id: usize,
    instance_info: InstanceInfo,
    run_id: Seq<char>,
)
    ensures
        ({
            let shared = origin(now, node_id, instance_info, run_id);
            &&& shared.timestamp == now
            &&& shared.measurement.len() == 0
            &&& shared.tags == seq![
                text_entry("instance_peer_id"@, instance_info.peer_id@),
                text_entry("instance_name"@, decimal(node_id as nat)),
                text_entry("run_id"@, run_id),
            ]
            &&& shared.fields.len() == 0
        }),
{
    assert(origin(now, node_id, instance_info, run_id).tags =~= seq![
        text_entry("instance_peer_id"@, instance_info.peer_id@),
        text_entry("instance_name"@, decimal(node_id as nat)),
        text_entry("run_id"@, run_id),
    ]);
}

/// A counter of a topic is set to zero under its own name behind that of the origin, with the topic as
/// one more tag.
pub proof fn counters_start_at_zero(origin: QueryView, name: Seq<char>, topic: Seq<char>)
    ensures
        ({
            let zero = zero_point(origin, name, topic);
            &&& zero.timestamp == origin.timestamp
            &&& zero.measurement == origin.measurement + name
            &&& zero.tags == origin.tags.push(text_entry("hash"@, topic))
            &&& zero.fields == origin.fields.push(
                EntryView { name: "count"@, value: TypeView::UnsignedInteger(0) },
            )
        }),
{
}

/// Metrics are set to zero one after the other, each for all topics in order.
pub proof fn each_metric_starts_at_zero(
    origin: QueryView,
    names: Seq<Seq<char>>,
    name: Seq<char>,
    topics: Seq<Topic>,
)
    ensures
        zero_points(origin, Seq::empty(), topics).len() == 0,
        ({
            let before = zero_points(origin, names, topics);
            let after = zero_points(origin, names.push(name), topics);
            &&& after.len() == before.len() + topics.len()
            &&& after.take(before.len() as int) == before
            &&& forall|t: int|
                0 <= t < topics.len() ==> #[trigger] after.skip(before.len() as int)[t]
                    == zero_point(origin, name, topics[t].name())
        }),
{
    assert(names.push(name).drop_last() =~= names);
    let before = zero_points(origin, names, topics);
    let after = zero_points(origin, names.push(name), topics);
    assert(after.take(before.len() as int) =~= before);
    assert(after.skip(before.len() as int) =~= topic_zero_points(origin, name, topics));
}

/// Eleven metrics start at zero.
pub proof fn eleven_metrics_start_at_zero()
    ensures
        zeroed_metrics() == seq![
            "topic_msg_published"@,
            "topic_msg_recv_counts"@,
            "topic_msg_recv_counts_unfiltered"@,
            "topic_msg_recv_duplicates"@,
            "topic_msg_sent_bytes"@,
            "topic_msg_recv_bytes"@,
            "episub_current_choked_peers_in_mesh"@,
            "episub_received_unchoke_messages"@,
            "topic_iwant_msgs"@,
            "episub_mesh_additions"@,
            "episub_received_choke_messages"@,
        ],
{
}

/// Metrics are recorded for their node and run, at the start of the run plus the time that has passed.
pub proof fn metrics_are_recorded_when_taken(
    info: Option<RecordMetricsInfo>,
    run_id: String,
    metrics: Vec<MetricFamily>,
    node_id: usize,
    instance_info: InstanceInfo,
    start: Timestamp,
    elapsed: (u64, u32),
)
    requires
        is_metrics_info(info, run_id, metrics, node_id, instance_info, start, elapsed),
        start.nanos < 1_000_000_000,
        elapsed.1 < 1_000_000_000,
    ensures
        ({
            let passed = start.seconds * 1_000_000_000 + start.nanos + elapsed.0 * 1_000_000_000
                + elapsed.1;
            &&& info is Some <==> start.seconds >= -8_334_601_228_800 && passed < 8_210_266_876_800
                * 1_000_000_000
            &&& info matches Some(info) ==> {
                &&& info.run_id == run_id && info.metrics == metrics && info.node_id == node_id
                &&& info.instance_info.peer_id@ == instance_info.peer_id@
                &&& info.instance_info.multiaddr@ == instance_info.multiaddr@
                &&& info.current.seconds * 1_000_000_000 + info.current.nanos == passed
                &&& info.current.nanos < 1_000_000_000
                &&& info.origin() == origin(info.current, node_id, info.instance_info, run_id@)
            }
        }),
{
}

/// Metrics can be recorded exactly where the start of the run is a date and the time at which they are taken
/// is not behind the last second that a date can hold, leap seconds included.
pub proof fn metrics_are_recorded_at_dates(
    info: Option<RecordMetricsInfo>,
    run_id: String,
    metrics: Vec<MetricFamily>,
    node_id: usize,
    instance_info: InstanceInfo,
    start: Timestamp,
    elapsed: (u64, u32),
)
    requires
        is_metrics_info(info, run_id, metrics, node_id, instance_info, start, elapsed),
    ensures
        ({
            let (seconds, nanos) = later(start, elapsed.0, elapsed.1);
            &&& info is Some <==> is_date(start) && seconds <= 8_210_266_876_799
            &&& info matches Some(info) ==> {
                &&& info.run_id == run_id && info.metrics == metrics && info.node_id == node_id
                &&& info.instance_info.peer_id@ == instance_info.peer_id@
                &&& info.instance_info.multiaddr@ == instance_info.multiaddr@
                &&& info.current.seconds == seconds && info.current.nanos == nanos
                &&& info.origin() == origin(info.current, node_id, info.instance_info, run_id@)
            }
        }),
{
}

} // verus!
