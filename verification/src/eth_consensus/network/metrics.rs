//! Recording the metrics of a node.

use super::{all_topics, topics, Network, Topic};
use crate::clock::{is_date, later, time_after, LAST_SECOND};
use crate::eth_consensus::utils::{initialise_counter, make_origin, origin, zero_point};
use crate::eth_consensus::InstanceInfo;
use crate::influx::{query_views, QueryView, Timestamp, WriteQuery};
use crate::openmetrics::MetricFamily;
use crate::recording::{
    all_recordable, duplicate_points, duplicate_queries, extend_queries, family_points,
    family_queries, Origin, Recorded, Table,
};
use crate::text::same_text;
use vstd::prelude::*;

verus! {

/// What is needed to record the metrics of a node.
#[derive(Debug)]
pub struct RecordMetricsInfo {
    pub run_id: String,
    pub metrics: Vec<MetricFamily>,
    pub node_id: usize,
    pub instance_info: InstanceInfo,
    pub current: Timestamp,
}

impl RecordMetricsInfo {
    /// What all queries share.
    pub open spec fn origin(self) -> QueryView {
        origin(self.current, self.node_id, self.instance_info, self.run_id@)
    }
}

/// Whether `info` is what is needed to record metrics of a node that are taken so many seconds and
/// nanoseconds after the start of a run. There is none where no date can hold that time.
pub open spec fn is_metrics_info(
    info: Option<RecordMetricsInfo>,
    run_id: String,
    metrics: Vec<MetricFamily>,
    node_id: usize,
    instance_info: InstanceInfo,
    start_time: Timestamp,
    elapsed: (u64, u32),
) -> bool {
    let current = later(start_time, elapsed.0, elapsed.1);
    match info {
        Some(info) => {
            &&& is_date(start_time) && current.0 <= LAST_SECOND
            &&& info.run_id == run_id
            &&& info.metrics == metrics
            &&& info.node_id == node_id
            &&& info.instance_info.peer_id@ == instance_info.peer_id@
            &&& info.instance_info.multiaddr@ == instance_info.multiaddr@
            &&& info.current.seconds == current.0
            &&& info.current.nanos == current.1
        },
        None => !is_date(start_time) || current.0 > LAST_SECOND,
    }
}

/// What is needed to record metrics of a node that are taken so many seconds and nanoseconds after
/// the start of a run. `None` means that no date can hold that time.
pub fn make_metrics_info(
    run_id: String,
    metrics: Vec<MetricFamily>,
    node_id: usize,
    instance_info: &InstanceInfo,
    start_time: Timestamp,
    elapsed: (u64, u32),
) -> (info: Option<RecordMetricsInfo>)
    requires
        elapsed.1 < 1_000_000_000,
    ensures
        is_metrics_info(info, run_id, metrics, node_id, *instance_info, start_time, elapsed),
{
    let current: Timestamp = time_after(start_time, elapsed.0, elapsed.1)?;
    Some(
        RecordMetricsInfo {
            run_id,
            metrics,
            node_id,
            instance_info: InstanceInfo {
                peer_id: instance_info.peer_id.clone(),
                multiaddr: instance_info.multiaddr.clone(),
            },
            current,
        },
    )
}

impl Network {
    /// What is needed to record the metrics of this node, so many seconds and nanoseconds after the
    /// start of the run. `None` means that no date can hold that time.
    pub fn record_metrics_info(
        &self,
        run_id: String,
        metrics: Vec<MetricFamily>,
        start_time: Timestamp,
        elapsed: (u64, u32),
    ) -> (info: Option<RecordMetricsInfo>)
        requires
            elapsed.1 < 1_000_000_000,
        ensures
            is_metrics_info(
                info,
                run_id,
                metrics,
                self.node_id,
                self.instance_info,
                start_time,
                elapsed,
            ),
    {
        make_metrics_info(
            run_id,
            metrics,
            self.node_id,
            &self.instance_info,
            start_time,
            elapsed,
        )
    }
}

/// The metrics of gossipsub and of its choking extension.
pub struct Metrics {}

impl Table for Metrics {
    open spec fn recorded(name: Seq<char>) -> Option<Recorded> {
        if name == "topic_subscription_status"@ {
            Some(Recorded::Status)
        } else if name == "topic_peers_counts"@ || name == "mesh_peer_counts"@ || name
            == "topic_msg_last_sent_bytes"@ || name == "topic_msg_last_recv_bytes"@ || name
            == "topic_msg_last_recv_bytes_unfiltered"@ || name == "memcache_size"@ || name
            == "episub_current_choked_peers_in_mesh"@ || name == "episub_current_peers_choked_us"@
            || name == "episub_metrics_cache_size"@ || name == "episub_metrics_ihave_cache_size"@ {
            Some(Recorded::Count)
        } else if name == "peers_per_protocol"@ {
            Some(Recorded::Peers)
        } else if name == "score_per_mesh"@ || name == "heartbeat_duration"@ || name
            == "episub_heartbeat_duration"@ {
            Some(Recorded::Histogram)
        } else if name == "episub_mesh_message_latency"@ || name
            == "episub_ihave_message_stats"@ {
            Some(Recorded::Skipped)
        } else if name == "invalid_messages_per_topic"@ || name == "accepted_messages_per_topic"@
            || name == "ignored_messages_per_topic"@ || name == "rejected_messages_per_topic"@
            || name == "mesh_peer_inclusion_events"@ || name == "mesh_peer_churn_events"@ || name
            == "topic_msg_sent_counts"@ || name == "topic_msg_published"@ || name
            == "topic_msg_sent_bytes"@ || name == "topic_msg_recv_counts_unfiltered"@ || name
            == "topic_msg_recv_counts"@ || name == "topic_msg_recv_bytes"@ || name
            == "scoring_penalties"@ || name == "topic_iwant_msgs"@ || name == "memcache_misses"@
            || name == "episub_mesh_additions"@ || name == "episub_received_choke_messages"@ || name
            == "episub_received_unchoke_messages"@ {
            Some(Recorded::Counter)
        } else {
            None
        }
    }

    fn recorded_as(name: &str) -> (recorded: Option<Recorded>) {
        if same_text(name, "topic_subscription_status") {
            Some(Recorded::Status)
        } else if same_text(name, "topic_peers_counts") || same_text(name, "mesh_peer_counts")
            || same_text(name, "topic_msg_last_sent_bytes") || same_text(
            name,
            "topic_msg_last_recv_bytes",
        ) || same_text(name, "topic_msg_last_recv_bytes_unfiltered") || same_text(
            name,
            "memcache_size",
        ) || same_text(name, "episub_current_choked_peers_in_mesh") || same_text(
            name,
            "episub_current_peers_choked_us",
        ) || same_text(name, "episub_metrics_cache_size") || same_text(
            name,
            "episub_metrics_ihave_cache_size",
        ) {
            Some(Recorded::Count)
        } else if same_text(name, "peers_per_protocol") {
            Some(Recorded::Peers)
        } else if same_text(name, "score_per_mesh") || same_text(name, "heartbeat_duration")
            || same_text(name, "episub_heartbeat_duration") {
            Some(Recorded::Histogram)
        } else if same_text(name, "episub_mesh_message_latency") || same_text(
            name,
            "episub_ihave_message_stats",
        ) {
            Some(Recorded::Skipped)
        } else if same_text(name, "invalid_messages_per_topic") || same_text(
            name,
            "accepted_messages_per_topic",
        ) || same_text(name, "ignored_messages_per_topic") || same_text(
            name,
            "rejected_messages_per_topic",
        ) || same_text(name, "mesh_peer_inclusion_events") || same_text(
            name,
            "mesh_peer_churn_events",
        ) || same_text(name, "topic_msg_sent_counts") || same_text(name, "topic_msg_published")
            || same_text(name, "topic_msg_sent_bytes") || same_text(
            name,
            "topic_msg_recv_counts_unfiltered",
        ) || same_text(name, "topic_msg_recv_counts") || same_text(name, "topic_msg_recv_bytes")
            || same_text(name, "scoring_penalties") || same_text(name, "topic_iwant_msgs")
            || same_text(name, "memcache_misses") || same_text(name, "episub_mesh_additions")
            || same_text(name, "episub_received_choke_messages") || same_text(
            name,
            "episub_received_unchoke_messages",
        ) {
            Some(Recorded::Counter)
        } else {
            None
        }
    }
}

/// The two message counters that are joined are recorded as counters.
proof fn lemma_message_counters()
    ensures
        Metrics::recorded("topic_msg_recv_counts_unfiltered"@) == Some(Recorded::Counter),
        Metrics::recorded("topic_msg_recv_counts"@) == Some(Recorded::Counter),
{
    reveal_strlit("topic_msg_recv_counts_unfiltered");
    reveal_strlit("topic_msg_recv_counts");
    reveal_strlit("topic_subscription_status");
    reveal_strlit("topic_peers_counts");
    reveal_strlit("mesh_peer_counts");
    reveal_strlit("topic_msg_last_sent_bytes");
    reveal_strlit("topic_msg_last_recv_bytes");
    reveal_strlit("topic_msg_last_recv_bytes_unfiltered");
    reveal_strlit("memcache_size");
    reveal_strlit("episub_current_choked_peers_in_mesh");
    reveal_strlit("episub_current_peers_choked_us");
    reveal_strlit("episub_metrics_cache_size");
    reveal_strlit("episub_metrics_ihave_cache_size");
    reveal_strlit("peers_per_protocol");
    reveal_strlit("score_per_mesh");
    reveal_strlit("heartbeat_duration");
    reveal_strlit("episub_heartbeat_duration");
    reveal_strlit("episub_mesh_message_latency");
    reveal_strlit("episub_ihave_message_stats");
    let unfiltered = "topic_msg_recv_counts_unfiltered"@;
    let filtered = "topic_msg_recv_counts"@;
    assert(filtered.len() == 21);
    assert(unfiltered.len() == 32);
}

/// The metrics that are set to zero at the start.
pub open spec fn zeroed_metrics() -> Seq<Seq<char>> {
    seq![
        "topic_msg_published"@,
        "topic_msg_recv_counts"@,
        "topic_msg_recv_counts_unfiltered"@,
        "topic_msg_recv_duplicates"@,
        "topic_msg_sent_bytes"@,
        "topic_msg_recv_bytes"@,
        "episub_current_choked_peers_in_mesh"@,
        "episub_received_unchoke_messages"@,
        "topic_iwant_msgs"@,
        "episub_mesh_additions"@,
        "episub_received_choke_messages"@,
    ]
}

/// The data points that set one metric to zero, for each topic.
pub open spec fn topic_zero_points(
    origin: QueryView,
    name: Seq<char>,
    topics: Seq<Topic>,
) -> Seq<QueryView> {
    topics.map_values(|topic: Topic| zero_point(origin, name, topic.name()))
}

/// The data points that set metrics to zero, one metric after the other.
pub open spec fn zero_points(
    origin: QueryView,
    names: Seq<Seq<char>>,
    topics: Seq<Topic>,
) -> Seq<QueryView>
    decreases names.len(),
{
    if names.len() == 0 {
        Seq::empty()
    } else {
        zero_points(origin, names.drop_last(), topics) + topic_zero_points(
            origin,
            names.last(),
            topics,
        )
    }
}

/// Queries that set some counters of each topic to zero.
pub fn initialise_metrics(info: &RecordMetricsInfo) -> (queries: Vec<WriteQuery>)
    ensures
        query_views(queries@) == zero_points(info.origin(), zeroed_metrics(), all_topics()),
{
    let names: Vec<&'static str> = vec![
        "topic_msg_published",
        "topic_msg_recv_counts",
        "topic_msg_recv_counts_unfiltered",
        "topic_msg_recv_duplicates",
        "topic_msg_sent_bytes",
        "topic_msg_recv_bytes",
        "episub_current_choked_peers_in_mesh",
        "episub_received_unchoke_messages",
        "topic_iwant_msgs",
        "episub_mesh_additions",
        "episub_received_choke_messages",
    ];
    let ghost wanted = zeroed_metrics();
    let all: Vec<Topic> = topics();
    let mut queries: Vec<WriteQuery> = Vec::new();
    let mut i: usize = 0;
    proof {
        assert(names@.map_values(|name: &'static str| name@) =~= wanted);
        assert(query_views(queries@) =~= zero_points(info.origin(), wanted.take(0), all@));
    }
    while i < names.len()
        invariant
            names@.len() == wanted.len(),
            forall|k: int| 0 <= k < names@.len() ==> (#[trigger] names@[k])@ == wanted[k],
            i <= names@.len(),
            query_views(queries@) == zero_points(info.origin(), wanted.take(i as int), all@),
        decreases names@.len() - i,
    {
        let ghost head = query_views(queries@);
        let ghost points = topic_zero_points(info.origin(), wanted[i as int], all@);
        let mut k: usize = 0;
        assert(query_views(queries@) =~= head + points.take(0));
        while k < all.len()
            invariant
                i < names@.len(),
                names@[i as int]@ == wanted[i as int],
                points == topic_zero_points(info.origin(), wanted[i as int], all@),
                k <= all@.len(),
                query_views(queries@) == head + points.take(k as int),
            decreases all@.len() - k,
        {
            let ghost before = queries@;
            let zero: WriteQuery = initialise_counter(
                info.current,
                names[i],
                all[k].to_text().as_str(),
                info.node_id,
                &info.instance_info,
                info.run_id.as_str(),
            );
            queries.push(zero);
            proof {
                assert(zero@ == points[k as int]);
                assert(query_views(queries@) =~= query_views(before).push(zero@));
                assert(query_views(queries@) =~= head + points.take(k + 1));
            }
            k = k + 1;
        }
        proof {
            assert(points.take(k as int) =~= points);
            let next = wanted.take(i + 1);
            assert(next.drop_last() =~= wanted.take(i as int));
        }
        i = i + 1;
    }
    assert(wanted.take(i as int) =~= wanted);
    queries
}

/// Queries for all metrics of a node, and for the duplicates among the messages it received.
pub fn record_metrics(info: &RecordMetricsInfo) -> (queries: Vec<WriteQuery>)
    requires
        all_recordable::<Metrics>(info.metrics@),
    ensures
        query_views(queries@) == family_points::<Metrics>(info.origin(), info.metrics@)
            + duplicate_points(info.origin(), info.metrics@),
{
    let shared: Origin = make_origin(
        info.current,
        info.node_id,
        &info.instance_info,
        info.run_id.as_str(),
    );
    let mut queries: Vec<WriteQuery> = family_queries::<Metrics>(&shared, &info.metrics);
    proof {
        lemma_message_counters();
    }
    extend_queries(&mut queries, duplicate_queries::<Metrics>(&shared, &info.metrics));
    queries
}

} // verus!
