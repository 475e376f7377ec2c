//! What holds of the tables that tell how the families of metrics are recorded.

use crate::eth_consensus::network::metrics::Metrics as ConsensusMetrics;
use crate::eth_consensus::node_run::Metrics as PlainMetrics;
use crate::recording::{Recorded, Table};
use crate::scoring::beacon_node::Metrics as ScoringMetrics;
use crate::scoring_parameters::honest::Metrics as PenaltyMetrics;
use vstd::prelude::*;

verus! {

/// By its length and some of its characters, each known name can be told from the others.
spec fn mark(name: Seq<char>) -> (nat, char, char, char) {
    (name.len(), name[1], name[6], name[name.len() - 8])
}

proof fn lemma_marks()
    ensures
        mark("accepted_messages_per_topic"@) == (27nat, 'c', 'e', 'e'),
        mark("episub_current_choked_peers_in_mesh"@) == (35nat, 'p', '_', '_'),
        mark("episub_current_peers_choked_us"@) == (30nat, 'p', '_', 'h'),
        mark("episub_heartbeat_duration"@) == (25nat, 'p', '_', 'd'),
        mark("episub_ihave_message_stats"@) == (26nat, 'p', '_', 'g'),
        mark("episub_mesh_additions"@) == (21nat, 'p', '_', 'd'),
        mark("episub_mesh_message_latency"@) == (27nat, 'p', '_', '_'),
        mark("episub_metrics_cache_size"@) == (25nat, 'p', '_', 'c'),
        mark("episub_metrics_ihave_cache_size"@) == (31nat, 'p', '_', 'c'),
        mark("episub_received_choke_messages"@) == (30nat, 'p', '_', 'm'),
        mark("episub_received_unchoke_messages"@) == (32nat, 'p', '_', 'm'),
        mark("heartbeat_duration"@) == (18nat, 'e', 'e', 'd'),
        mark("ignored_messages_per_topic"@) == (26nat, 'g', 'd', 'e'),
        mark("invalid_messages_per_topic"@) == (26nat, 'n', 'd', 'e'),
        mark("memcache_misses"@) == (15nat, 'e', 'h', 'e'),
        mark("memcache_size"@) == (13nat, 'e', 'h', 'c'),
        mark("mesh_peer_churn_events"@) == (22nat, 'e', 'e', 'n'),
        mark("mesh_peer_counts"@) == (16nat, 'e', 'e', 'r'),
        mark("mesh_peer_inclusion_events"@) == (26nat, 'e', 'e', 'n'),
        mark("peers_per_protocol"@) == (18nat, 'e', 'p', 'p'),
        mark("rejected_messages_per_topic"@) == (27nat, 'e', 'e', 'e'),
        mark("score_per_mesh"@) == (14nat, 'c', 'p', 'p'),
        mark("scoring_penalties"@) == (17nat, 'c', 'g', 'e'),
        mark("topic_iwant_msgs"@) == (16nat, 'o', 'i', 'a'),
        mark("topic_msg_last_recv_bytes"@) == (25nat, 'o', 'm', 'c'),
        mark("topic_msg_last_recv_bytes_unfiltered"@) == (36nat, 'o', 'm', 'f'),
        mark("topic_msg_last_sent_bytes"@) == (25nat, 'o', 'm', 'n'),
        mark("topic_msg_published"@) == (19nat, 'o', 'm', 'u'),
        mark("topic_msg_recv_bytes"@) == (20nat, 'o', 'm', 'c'),
        mark("topic_msg_recv_counts"@) == (21nat, 'o', 'm', 'v'),
        mark("topic_msg_recv_counts_unfiltered"@) == (32nat, 'o', 'm', 'f'),
        mark("topic_msg_sent_bytes"@) == (20nat, 'o', 'm', 'n'),
        mark("topic_msg_sent_counts"@) == (21nat, 'o', 'm', 't'),
        mark("topic_peers_counts"@) == (18nat, 'o', 'p', 's'),
        mark("topic_subscription_status"@) == (25nat, 'o', 's', 'n'),
{
    reveal_strlit("accepted_messages_per_topic");
    reveal_strlit("episub_current_choked_peers_in_mesh");
    reveal_strlit("episub_current_peers_choked_us");
    reveal_strlit("episub_heartbeat_duration");
    reveal_strlit("episub_ihave_message_stats");
    reveal_strlit("episub_mesh_additions");
    reveal_strlit("episub_mesh_message_latency");
    reveal_strlit("episub_metrics_cache_size");
    reveal_strlit("episub_metrics_ihave_cache_size");
    reveal_strlit("episub_received_choke_messages");
    reveal_strlit("episub_received_unchoke_messages");
    reveal_strlit("heartbeat_duration");
    reveal_strlit("ignored_messages_per_topic");
    reveal_strlit("invalid_messages_per_topic");
    reveal_strlit("memcache_misses");
    reveal_strlit("memcache_size");
    reveal_strlit("mesh_peer_churn_events");
    reveal_strlit("mesh_peer_counts");
    reveal_strlit("mesh_peer_inclusion_events");
    reveal_strlit("peers_per_protocol");
    reveal_strlit("rejected_messages_per_topic");
    reveal_strlit("score_per_mesh");
    reveal_strlit("scoring_penalties");
    reveal_strlit("topic_iwant_msgs");
    reveal_strlit("topic_msg_last_recv_bytes");
    reveal_strlit("topic_msg_last_recv_bytes_unfiltered");
    reveal_strlit("topic_msg_last_sent_bytes");
    reveal_strlit("topic_msg_published");
    reveal_strlit("topic_msg_recv_bytes");
    reveal_strlit("topic_msg_recv_counts");
    reveal_strlit("topic_msg_recv_counts_unfiltered");
    reveal_strlit("topic_msg_sent_bytes");
    reveal_strlit("topic_msg_sent_counts");
    reveal_strlit("topic_peers_counts");
    reveal_strlit("topic_subscription_status");
}

/// The metrics of the consensus simulation: every known family is recorded, but for two that cannot be
/// drawn.
#[verifier::rlimit(50)]
pub proof fn consensus_metrics_are_recorded(name: Seq<char>)
    ensures
        ConsensusMetrics::recorded(name) == Some(Recorded::Status) <==> name == "topic_subscription_status"@,
        ConsensusMetrics::recorded(name) == Some(Recorded::Count) <==> name == "topic_peers_counts"@
            || name == "mesh_peer_counts"@
            || name == "topic_msg_last_sent_bytes"@
            || name == "topic_msg_last_recv_bytes"@
            || name == "topic_msg_last_recv_bytes_unfiltered"@
            || name == "memcache_size"@
            || name == "episub_current_choked_peers_in_mesh"@
            || name == "episub_current_peers_choked_us"@
            || name == "episub_metrics_cache_size"@
            || name == "episub_metrics_ihave_cache_size"@,
        ConsensusMetrics::recorded(name) == Some(Recorded::Peers) <==> name == "peers_per_protocol"@,
        ConsensusMetrics::recorded(name) == Some(Recorded::Histogram) <==> name == "score_per_mesh"@
            || name == "heartbeat_duration"@
            || name == "episub_heartbeat_duration"@,
        ConsensusMetrics::recorded(name) == Some(Recorded::Skipped) <==> name == "episub_mesh_message_latency"@
            || name == "episub_ihave_message_stats"@,
        ConsensusMetrics::recorded(name) == Some(Recorded::Counter) <==> name == "invalid_messages_per_topic"@
            || name == "accepted_messages_per_topic"@
            || name == "ignored_messages_per_topic"@
            || name == "rejected_messages_per_topic"@
            || name == "mesh_peer_inclusion_events"@
            || name == "mesh_peer_churn_events"@
            || name == "topic_msg_sent_counts"@
            || name == "topic_msg_published"@
            || name == "topic_msg_sent_bytes"@
            || name == "topic_msg_recv_counts_unfiltered"@
            || name == "topic_msg_recv_counts"@
            || name == "topic_msg_recv_bytes"@
            || name == "scoring_penalties"@
            || name == "topic_iwant_msgs"@
            || name == "memcache_misses"@
            || name == "episub_mesh_additions"@
            || name == "episub_received_choke_messages"@
            || name == "episub_received_unchoke_messages"@,
        ConsensusMetrics::recorded(name) is None <==> !(name == "topic_subscription_status"@
            || name == "topic_peers_counts"@
            || name == "mesh_peer_counts"@
            || name == "topic_msg_last_sent_bytes"@
            || name == "topic_msg_last_recv_bytes"@
            || name == "topic_msg_last_recv_bytes_unfiltered"@
            || name == "memcache_size"@
            || name == "episub_current_choked_peers_in_mesh"@
            || name == "episub_current_peers_choked_us"@
            || name == "episub_metrics_cache_size"@
            || name == "episub_metrics_ihave_cache_size"@
            || name == "peers_per_protocol"@
            || name == "score_per_mesh"@
            || name == "heartbeat_duration"@
            || name == "episub_heartbeat_duration"@
            || name == "episub_mesh_message_latency"@
            || name == "episub_ihave_message_stats"@
            || name == "invalid_messages_per_topic"@
            || name == "accepted_messages_per_topic"@
            || name == "ignored_messages_per_topic"@
            || name == "rejected_messages_per_topic"@
            || name == "mesh_peer_inclusion_events"@
            || name == "mesh_peer_churn_events"@
            || name == "topic_msg_sent_counts"@
            || name == "topic_msg_published"@
            || name == "topic_msg_sent_bytes"@
            || name == "topic_msg_recv_counts_unfiltered"@
            || name == "topic_msg_recv_counts"@
            || name == "topic_msg_recv_bytes"@
            || name == "scoring_penalties"@
            || name == "topic_iwant_msgs"@
            || name == "memcache_misses"@
            || name == "episub_mesh_additions"@
            || name == "episub_received_choke_messages"@
            || name == "episub_received_unchoke_messages"@),
{
    lemma_marks();
}

/// The metrics of the simulations without the choking extension: every known family is recorded.
#[verifier::rlimit(50)]
pub proof fn plain_metrics_are_recorded(name: Seq<char>)
    ensures
        PlainMetrics::recorded(name) == Some(Recorded::Status) <==> name == "topic_subscription_status"@,
        PlainMetrics::recorded(name) == Some(Recorded::Count) <==> name == "topic_peers_counts"@
            || name == "mesh_peer_counts"@,
        PlainMetrics::recorded(name) == Some(Recorded::Peers) <==> name == "peers_per_protocol"@,
        PlainMetrics::recorded(name) == Some(Recorded::Histogram) <==> name == "score_per_mesh"@
            || name == "heartbeat_duration"@,
        PlainMetrics::recorded(name) != Some(Recorded::Skipped),
        PlainMetrics::recorded(name) == Some(Recorded::Counter) <==> name == "invalid_messages_per_topic"@
            || name == "accepted_messages_per_topic"@
            || name == "ignored_messages_per_topic"@
            || name == "rejected_messages_per_topic"@
            || name == "mesh_peer_inclusion_events"@
            || name == "mesh_peer_churn_events"@
            || name == "topic_msg_sent_counts"@
            || name == "topic_msg_published"@
            || name == "topic_msg_sent_bytes"@
            || name == "topic_msg_recv_counts_unfiltered"@
            || name == "topic_msg_recv_counts"@
            || name == "topic_msg_recv_bytes"@
            || name == "scoring_penalties"@
            || name == "topic_iwant_msgs"@
            || name == "memcache_misses"@,
        PlainMetrics::recorded(name) is None <==> !(name == "topic_subscription_status"@
            || name == "topic_peers_counts"@
            || name == "mesh_peer_counts"@
            || name == "peers_per_protocol"@
            || name == "score_per_mesh"@
            || name == "heartbeat_duration"@
            || name == "invalid_messages_per_topic"@
            || name == "accepted_messages_per_topic"@
            || name == "ignored_messages_per_topic"@
            || name == "rejected_messages_per_topic"@
            || name == "mesh_peer_inclusion_events"@
            || name == "mesh_peer_churn_events"@
            || name == "topic_msg_sent_counts"@
            || name == "topic_msg_published"@
            || name == "topic_msg_sent_bytes"@
            || name == "topic_msg_recv_counts_unfiltered"@
            || name == "topic_msg_recv_counts"@
            || name == "topic_msg_recv_bytes"@
            || name == "scoring_penalties"@
            || name == "topic_iwant_msgs"@
            || name == "memcache_misses"@),
{
    lemma_marks();
}

/// The metrics of the scoring simulation: every known counter is recorded, and nothing else.
#[verifier::rlimit(50)]
pub proof fn scoring_metrics_are_recorded(name: Seq<char>)
    ensures
        ScoringMetrics::recorded(name) != Some(Recorded::Status),
        ScoringMetrics::recorded(name) != Some(Recorded::Count),
        ScoringMetrics::recorded(name) != Some(Recorded::Peers),
        ScoringMetrics::recorded(name) != Some(Recorded::Histogram),
        ScoringMetrics::recorded(name) == Some(Recorded::Skipped) <==> name == "topic_subscription_status"@
            || name == "topic_peers_counts"@
            || name == "mesh_peer_counts"@
            || name == "score_per_mesh"@
            || name == "peers_per_protocol"@
            || name == "heartbeat_duration"@,
        ScoringMetrics::recorded(name) == Some(Recorded::Counter) <==> name == "invalid_messages_per_topic"@
            || name == "accepted_messages_per_topic"@
            || name == "ignored_messages_per_topic"@
            || name == "rejected_messages_per_topic"@
            || name == "mesh_peer_inclusion_events"@
            || name == "mesh_peer_churn_events"@
            || name == "topic_msg_sent_counts"@
            || name == "topic_msg_published"@
            || name == "topic_msg_sent_bytes"@
            || name == "topic_msg_recv_counts_unfiltered"@
            || name == "topic_msg_recv_counts"@
            || name == "topic_msg_recv_bytes"@
            || name == "scoring_penalties"@
            || name == "topic_iwant_msgs"@
            || name == "memcache_misses"@,
        ScoringMetrics::recorded(name) is None <==> !(name == "topic_subscription_status"@
            || name == "topic_peers_counts"@
            || name == "mesh_peer_counts"@
            || name == "score_per_mesh"@
            || name == "peers_per_protocol"@
            || name == "heartbeat_duration"@
            || name == "invalid_messages_per_topic"@
            || name == "accepted_messages_per_topic"@
            || name == "ignored_messages_per_topic"@
            || name == "rejected_messages_per_topic"@
            || name == "mesh_peer_inclusion_events"@
            || name == "mesh_peer_churn_events"@
            || name == "topic_msg_sent_counts"@
            || name == "topic_msg_published"@
            || name == "topic_msg_sent_bytes"@
            || name == "topic_msg_recv_counts_unfiltered"@
            || name == "topic_msg_recv_counts"@
            || name == "topic_msg_recv_bytes"@
            || name == "scoring_penalties"@
            || name == "topic_iwant_msgs"@
            || name == "memcache_misses"@),
{
    lemma_marks();
}

/// The metrics of the parameter study: the scoring penalties are recorded, and nothing else.
pub proof fn penalties_are_recorded(name: Seq<char>)
    ensures
        PenaltyMetrics::recorded(name) == Some(Recorded::Counter) <==> name == "scoring_penalties"@,
        PenaltyMetrics::recorded(name) == Some(Recorded::Skipped) <==> name != "scoring_penalties"@,
{
}

} // verus!
