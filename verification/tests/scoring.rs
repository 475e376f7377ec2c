use gossipsub_testground::eth_consensus::Message;
use gossipsub_testground::gen_topology::Params;
use gossipsub_testground::influx::{Double, Entry, Timestamp, Type, WriteQuery};
use gossipsub_testground::instance_params::InstanceParams;
use gossipsub_testground::openmetrics::{
    Label, Metric, MetricFamily, MetricPoint, Total, Value,
};
use gossipsub_testground::recording::can_record_all;
use gossipsub_testground::scoring::beacon_node::{
    generator_settings, knows_topic, route, BeaconNodeInfo, GossipsubEvent, Metrics, Network,
    PeerScore, Received, SimAction, SimEvent,
};
use gossipsub_testground::scoring::param::{
    are_all_times_countable, are_times_countable, build_peer_score_params,
    parse_peer_score_thresholds, parse_topic_score_params, parse_topology_params, NetworkParams,
};
use gossipsub_testground::scoring::topic::{topics, Topic};
use gossipsub_testground::scoring::utils::{
    queries_for_counter_join, record_run_id, record_topology_attacker,
    record_topology_beacon_node, record_topology_edge, record_victim_id,
};
use gossipsub_testground::scoring::Group;
use std::collections::{BTreeMap, BTreeSet};

const NOW: Timestamp = Timestamp { seconds: 5, nanos: 0 };

fn text(value: &Type) -> String {
    match value {
        Type::Float(double) => format!("f{}", f64::from_bits(double.bits)),
        Type::SignedInteger(number) => format!("i{number}"),
        Type::UnsignedInteger(number) => format!("u{number}"),
        Type::Text(text) => format!("'{text}'"),
    }
}

/// A query in one line.
fn line(query: &WriteQuery) -> String {
    let entries = |entries: &Vec<Entry>| {
        entries
            .iter()
            .map(|entry| format!("{}={}", entry.name, text(&entry.value)))
            .collect::<Vec<_>>()
            .join(",")
    };
    format!(
        "{}@{} {} {}",
        query.measurement,
        query.timestamp.seconds,
        entries(&query.tags),
        entries(&query.fields)
    )
}

fn lines(queries: &[WriteQuery]) -> Vec<String> {
    queries.iter().map(line).collect()
}

fn double(x: f64) -> Double {
    Double { bits: x.to_bits() }
}

fn info(name: &str, validators: &[u64]) -> BeaconNodeInfo {
    BeaconNodeInfo {
        peer_id: name.to_string(),
        multiaddr: format!("/ip4/{name}"),
        validators: validators.to_vec(),
    }
}

fn network() -> Network {
    Network::new(
        0,
        info("P", &[1]),
        BTreeMap::from([(1, info("one", &[])), (2, info("two", &[]))]),
        vec!["bad".to_string()],
    )
}

fn received(topic: Topic, validator: u64, slot: u64) -> SimEvent {
    SimEvent::Gossipsub(GossipsubEvent::Message { topic, validator, slot })
}

#[test]
fn groups_are_known_by_name() {
    assert_eq!(Group::from_text("beacon_node"), Some(Group::BeaconNode));
    assert_eq!(Group::from_text("attacker"), Some(Group::Attacker));
    assert_eq!(Group::from_text("attackers"), None);
}

#[test]
fn json_topic_names_differ() {
    let all = topics(4, 4);
    assert_eq!(all.len(), 17);
    let names: BTreeSet<String> = all.iter().map(|topic| topic.to_text()).collect();
    assert_eq!(names.len(), all.len());
    for name in &names {
        let value: serde_json::Value = serde_json::from_str(name).unwrap();
        assert_eq!(&value.to_string(), name);
    }
    assert_eq!(Topic::Blocks.to_text(), "\"Blocks\"");
    assert_eq!(
        Topic::SignedContributionAndProof(3).to_text(),
        "{\"SignedContributionAndProof\":3}"
    );
    assert_eq!(
        network().subscribe_topics()[..3],
        ["\"Blocks\"", "{\"Attestations\":0}", "{\"Aggregates\":0}"]
    );
}

#[test]
fn beacon_messages_keep_validator_and_slot() {
    assert_eq!(
        route(&Message::BeaconBlock { proposer: 5, slot: 40 }),
        (Topic::Blocks, 5, 40)
    );
    assert_eq!(
        route(&Message::AggregateAndProofAttestation { aggregator: 6, subnet: 2, slot: 41 }),
        (Topic::Aggregates(2), 6, 41)
    );
    let message = Message::Attestation { attester: 7, subnet: 1, slot: 42 };
    match network().on_event(SimEvent::Generated(message)) {
        SimAction::Publish { topic, validator, slot } => {
            assert_eq!((topic.as_str(), validator, slot), ("{\"Attestations\":1}", 7, 42));
        }
        other => panic!("unexpected {other:?}"),
    }
    assert!(matches!(network().on_event(SimEvent::Deadline), SimAction::Stop));
    assert!(matches!(network().on_event(SimEvent::RecordingDue), SimAction::Record));
    assert!(matches!(network().on_event(SimEvent::Other), SimAction::Nothing));
}

#[test]
fn received_messages_count_once_per_epoch() {
    let mut received = Received::new();
    assert!(received.receive(Topic::Blocks, 1, 63));
    assert!(!received.receive(Topic::Blocks, 2, 63));
    assert!(received.receive(Topic::Blocks, 2, 64));
    assert_eq!(
        received.beacon_blocks,
        BTreeMap::from([(1, BTreeSet::from([63])), (2, BTreeSet::from([64]))])
    );
    assert!(received.receive(Topic::Attestations(3), 9, 0));
    assert!(!received.receive(Topic::Attestations(3), 9, 31));
    assert!(received.receive(Topic::Attestations(3), 9, 32));
    assert!(received.receive(Topic::Attestations(2), 9, 0));
    assert!(received.receive(Topic::Aggregates(3), 9, 0));
    assert!(received.receive(Topic::SyncMessages(0), 9, 0));
    assert!(received.receive(Topic::SignedContributionAndProof(0), 9, 0));
    assert_eq!(received.attestations[3].len(), 2);
    assert_eq!(received.sync_committee_aggregates[0][&0], BTreeSet::from([9]));
    assert!(received.sync_committee_messages[1].is_empty());
    assert!(knows_topic(&Topic::SyncMessages(3)) && !knows_topic(&Topic::SyncMessages(4)));
    assert!(!knows_topic(&Topic::Aggregates(4)) && knows_topic(&Topic::Blocks));
}

#[test]
fn repeated_gossip_is_told() {
    let mut network = network();
    let block = || GossipsubEvent::Message { topic: Topic::Blocks, validator: 1, slot: 5 };
    assert!(!network.handle_gossipsub_event(block()));
    assert!(network.handle_gossipsub_event(block()));
    assert!(!network.handle_gossipsub_event(GossipsubEvent::Other));
}

#[test]
fn results_are_recorded_by_kind_subnet_and_epoch() {
    let mut network = network();
    for event in [
        received(Topic::Blocks, 1, 32),
        received(Topic::Blocks, 1, 33),
        received(Topic::Blocks, 1, 3),
        received(Topic::Aggregates(1), 4, 0),
        received(Topic::SyncMessages(3), 4, 0),
        received(Topic::SyncMessages(3), 5, 1),
        received(Topic::SyncMessages(0), 5, 1),
    ] {
        assert!(matches!(network.on_event(event), SimAction::Nothing));
    }
    let starts = BTreeMap::from([
        (0, Timestamp { seconds: 0, nanos: 0 }),
        (1, Timestamp { seconds: 384, nanos: 0 }),
    ]);
    assert_eq!(
        lines(&network.record_results("R", &starts)),
        vec![
            "scoring_beacon_block@0 peer_id='P',run_id='R',epoch=u0 count=u1",
            "scoring_beacon_block@384 peer_id='P',run_id='R',epoch=u1 count=u2",
            "scoring_aggregates_1@0 peer_id='P',run_id='R',epoch=u0 count=u1",
            "scoring_sync_committee_messages_0@0 peer_id='P',run_id='R',epoch=u0 count=u1",
            "scoring_sync_committee_messages_3@0 peer_id='P',run_id='R',epoch=u0 count=u2",
        ]
    );
}

#[test]
fn scores_of_attackers_are_marked() {
    let score = |peer: &str, score: f64| PeerScore {
        peer_id: peer.to_string(),
        score: double(score),
    };
    let record = network().record_peer_scores(NOW, "R", &vec![score("one", 1.5), score("bad", -2.0)]);
    assert_eq!(
        line(&record.unwrap()),
        "scoring_scores@5 peer_id='P',run_id='R' one=f1.5,attacker_bad=f-2"
    );
    assert!(network().record_peer_scores(NOW, "R", &vec![]).is_none());
}

fn counters(name: &str, counts: &[u64]) -> MetricFamily {
    MetricFamily {
        name: name.to_string(),
        metrics: counts
            .iter()
            .map(|count| Metric {
                labels: vec![Label { name: "l".to_string(), value: "v".to_string() }],
                metric_points: vec![MetricPoint {
                    value: Some(Value::CounterValue(Some(Total::IntValue(*count)))),
                }],
            })
            .collect(),
    }
}

#[test]
fn only_counters_of_a_beacon_node_are_recorded() {
    let families = vec![counters("heartbeat_duration", &[1]), counters("memcache_misses", &[3])];
    assert!(can_record_all::<Metrics>(&families));
    assert_eq!(
        lines(&network().record_metrics(NOW, "R", &families)),
        vec!["scoring_memcache_misses@5 peer_id='P',run_id='R',l='v' count=u3"]
    );
    assert!(!can_record_all::<Metrics>(&vec![counters("else", &[])]));
    let joined = queries_for_counter_join(
        NOW,
        &counters("a", &[7]),
        &counters("b", &[9]),
        "ab",
        "P",
        "R",
        |a, b| a.saturating_sub(b),
    );
    assert_eq!(lines(&joined), vec!["scoring_ab@5 peer_id='P',run_id='R',l='v' count=u0"]);
}

#[test]
fn beacon_nodes_are_dialed_in_order() {
    let network = network();
    let targets: Vec<&String> = network
        .dial_peers(&vec![2, 1, 2])
        .into_iter()
        .map(|info| info.multiaddr())
        .collect();
    assert_eq!(targets, vec!["/ip4/two", "/ip4/one", "/ip4/two"]);
}

#[test]
fn only_the_first_of_a_group_records_the_run() {
    assert_eq!(
        line(&record_run_id(NOW, 1, "R").unwrap()),
        "scoring_run_id@5 run_id='R' run_id='R'"
    );
    assert!(record_run_id(NOW, 2, "R").is_none());
    assert_eq!(
        line(&record_victim_id(NOW, 1, "R", &info("V", &[])).unwrap()),
        "scoring_victim@5 run_id='R' peer_id='V'"
    );
    assert!(record_victim_id(NOW, 0, "R", &info("V", &[])).is_none());
}

#[test]
fn graph_of_the_network_is_recorded() {
    assert_eq!(
        line(&record_topology_beacon_node(NOW, 1, "R", &info("V", &[3]))),
        "scoring_topology_node@5 run_id='R' id='V',title='bn_0',arc__bn=i1"
    );
    assert_eq!(
        line(&record_topology_beacon_node(NOW, 12, "R", &info("V", &[]))),
        "scoring_topology_node@5 run_id='R' id='V',title='bn_no_val_11',arc__bn=i1"
    );
    assert_eq!(
        line(&record_topology_attacker(NOW, 3, "R", "A")),
        "scoring_topology_node@5 run_id='R' id='A',title='attacker_2',arc__attacker=i1"
    );
    let ids: BTreeSet<String> = (0..20)
        .map(|_| {
            let record = record_topology_edge(NOW, "R", "A", "B");
            assert_eq!(record.measurement, "scoring_topology_edge");
            assert_eq!(text(&record.fields[1].value), "'A'");
            assert_eq!(text(&record.fields[2].value), "'B'");
            text(&record.fields[0].value)
        })
        .collect();
    assert!(ids.len() > 1);
}

fn params(pairs: &[(&str, &str)]) -> InstanceParams {
    let mut params = InstanceParams::new();
    for (key, text) in pairs {
        let double = text.parse::<f64>().ok().map(double);
        params.insert(key.to_string(), text.to_string(), double);
    }
    params
}

const TOPIC_KEYS: &[&str] = &[
    "topic_weight",
    "time_in_mesh_weight",
    "time_in_mesh_quantum",
    "time_in_mesh_cap",
    "first_message_deliveries_weight",
    "first_message_deliveries_decay",
    "first_message_deliveries_cap",
    "mesh_message_deliveries_weight",
    "mesh_message_deliveries_decay",
    "mesh_message_deliveries_threshold",
    "mesh_message_deliveries_cap",
    "mesh_message_deliveries_activation",
    "mesh_message_deliveries_window",
    "mesh_failure_penalty_weight",
    "mesh_failure_penalty_decay",
    "invalid_message_deliveries_weight",
    "invalid_message_deliveries_decay",
];

const WEIGHT_KEYS: &[&str] = &[
    "topic_score_cap",
    "decay_interval",
    "decay_to_zero",
    "retain_score",
    "app_specific_weight",
    "ip_colocation_factor_weight",
    "ip_colocation_factor_threshold",
    "behaviour_penalty_weight",
    "behaviour_penalty_threshold",
    "behaviour_penalty_decay",
];

/// All score parameters, counted up from one, for the given topics.
fn score_params(prefixes: &[&str], scap: &str, scm: &str) -> InstanceParams {
    let mut params = InstanceParams::new();
    let mut set = |key: String, text: String| {
        let double = text.parse::<f64>().ok().map(double);
        params.insert(key, text, double);
    };
    for (i, key) in WEIGHT_KEYS.iter().enumerate() {
        set(key.to_string(), (i + 1).to_string());
    }
    for prefix in prefixes {
        for (i, key) in TOPIC_KEYS.iter().enumerate() {
            set(format!("{prefix}_{key}"), (i + 1).to_string());
        }
    }
    set("scap_enable_topic_params".to_string(), scap.to_string());
    set("scm_enable_topic_params".to_string(), scm.to_string());
    params
}

#[test]
fn topic_times_are_counted_in_slots_and_epochs() {
    let topic = parse_topic_score_params("bb", &score_params(&["bb"], "", "")).unwrap();
    assert_eq!(topic.topic_weight, double(1.0));
    assert_eq!(topic.time_in_mesh_quantum, 3 * 12);
    assert_eq!(topic.time_in_mesh_cap, double(4.0));
    assert_eq!(topic.mesh_message_deliveries_activation, 12 * 12 * 32);
    assert_eq!(topic.mesh_message_deliveries_window, 13);
    assert_eq!(topic.invalid_message_deliveries_decay, double(17.0));
}

#[test]
fn score_parameters_cover_the_enabled_topics() {
    let params = score_params(&["bb", "baap", "a", "scap"], "true", "false");
    assert!(are_all_times_countable(&params));
    let score = build_peer_score_params(&params).unwrap();
    assert_eq!(score.weights.topic_score_cap, double(1.0));
    assert_eq!(score.weights.decay_interval, 2);
    assert_eq!(score.weights.behaviour_penalty_decay, double(10.0));
    let scored: Vec<Topic> = score.topics.iter().map(|(topic, _)| *topic).collect();
    assert_eq!(scored.len(), 13);
    assert_eq!(
        scored[..4],
        [Topic::Blocks, Topic::Aggregates(0), Topic::Attestations(0), Topic::Aggregates(1)]
    );
    assert_eq!(scored[9], Topic::SignedContributionAndProof(0));
    let with_both = score_params(&["bb", "baap", "a", "scap", "scm"], "true", "true");
    let score = build_peer_score_params(&with_both).unwrap();
    assert_eq!(score.topics[16].0, Topic::SyncMessages(3));
    let names: BTreeSet<String> = score.topics.iter().map(|(topic, _)| topic.to_text()).collect();
    assert_eq!(names.len(), 17);
}

#[test]
fn missing_score_parameters_are_reported() {
    assert_eq!(
        build_peer_score_params(&params(&[])).unwrap_err(),
        "topic_score_cap is not specified."
    );
    assert_eq!(
        build_peer_score_params(&score_params(&["bb", "a"], "false", "false")).unwrap_err(),
        "baap_topic_weight is not specified."
    );
    assert_eq!(
        build_peer_score_params(&score_params(&["bb", "baap", "a"], "true", "false")).unwrap_err(),
        "scap_topic_weight is not specified."
    );
    assert_eq!(
        build_peer_score_params(&score_params(&["bb", "baap", "a"], "false", "x")).unwrap_err(),
        "Failed to parse instance_param. key: scm_enable_topic_params"
    );
}

#[test]
fn endless_times_cannot_be_counted() {
    for key in ["bb_time_in_mesh_quantum", "bb_mesh_message_deliveries_activation"] {
        let mut endless = score_params(&["bb", "baap", "a"], "false", "false");
        endless.insert(key.to_string(), "18446744073709551615".to_string(), None);
        assert!(!are_times_countable("bb", &endless));
        assert!(are_times_countable("a", &endless));
        assert!(!are_all_times_countable(&endless));
    }
}

#[test]
fn endless_times_that_are_not_read_do_not_matter() {
    let endless = |key: &str, prefixes: &[&str], scap: &str| {
        let mut params = score_params(prefixes, scap, "true");
        params.insert(key.to_string(), "18446744073709551615".to_string(), None);
        params
    };
    let unread = params(&[("bb_time_in_mesh_quantum", "18446744073709551615")]);
    assert!(are_times_countable("bb", &unread) && are_all_times_countable(&unread));
    assert_eq!(
        parse_topic_score_params("bb", &unread).unwrap_err(),
        "bb_topic_weight is not specified."
    );
    let mut cut = endless("bb_mesh_message_deliveries_activation", &["bb"], "");
    cut.insert("bb_first_message_deliveries_cap".to_string(), "?".to_string(), None);
    assert!(are_times_countable("bb", &cut));
    assert_eq!(
        parse_topic_score_params("bb", &cut).unwrap_err(),
        "Failed to parse instance_param. key: bb_first_message_deliveries_cap"
    );
    let key = "scm_time_in_mesh_quantum";
    let later = endless(key, &["bb", "a", "scm"], "false");
    assert!(!are_times_countable("scm", &later) && are_all_times_countable(&later));
    assert_eq!(
        build_peer_score_params(&later).unwrap_err(),
        "baap_topic_weight is not specified."
    );
    let hidden = endless(key, &["bb", "baap", "a", "scm"], "true");
    assert!(are_all_times_countable(&hidden));
    assert_eq!(
        build_peer_score_params(&hidden).unwrap_err(),
        "scap_topic_weight is not specified."
    );
    assert!(!are_all_times_countable(&endless(key, &["bb", "baap", "a", "scm"], "false")));
}

#[test]
fn score_thresholds_are_read() {
    let mut pairs = vec![
        ("gossip_threshold", "-1"),
        ("publish_threshold", "-2.5"),
        ("graylist_threshold", "-3"),
        ("accept_px_threshold", "4"),
        ("opportunistic_graft_threshold", "5"),
    ];
    let thresholds = parse_peer_score_thresholds(&params(&pairs)).unwrap();
    assert_eq!(thresholds.publish_threshold, double(-2.5));
    assert_eq!(thresholds.opportunistic_graft_threshold, double(5.0));
    pairs.remove(2);
    assert_eq!(
        parse_peer_score_thresholds(&params(&pairs)).unwrap_err(),
        "graylist_threshold is not specified."
    );
}

#[test]
fn scoring_topology_parameters_are_read() {
    let mut pairs = vec![
        ("seed", "1"),
        ("no_val_percentage", "50"),
        ("total_validators", "6"),
        ("min_peers_per_node", "1"),
        ("max_peers_per_node_inclusive", "2"),
        ("run", "30"),
    ];
    let (run, topology) = parse_topology_params(5, &params(&pairs)).unwrap();
    assert_eq!(run, 30);
    assert_eq!((topology.total_nodes(), topology.total_nodes_with_vals()), (5, 3));
    pairs[2] = ("total_validators", "six");
    assert_eq!(
        parse_topology_params(5, &params(&pairs)).unwrap_err(),
        "Failed to parse instance_param. key: total_validators"
    );
    pairs.remove(0);
    assert_eq!(
        parse_topology_params(5, &params(&pairs)).unwrap_err(),
        "seed is not specified."
    );
}

#[test]
fn latency_is_drawn_below_its_maximum() {
    let mut drawn = BTreeSet::new();
    for _ in 0..200 {
        let network = NetworkParams::new(&params(&[
            ("latency", "10"),
            ("latency_max", "14"),
            ("bandwidth", "3"),
        ]))
        .unwrap();
        assert_eq!(network.bandwidth, 3);
        drawn.insert(network.latency);
    }
    assert!(drawn.len() > 1 && drawn.iter().all(|latency| (10..14).contains(latency)));
    let fixed = NetworkParams::new(&params(&[
        ("latency", "20"),
        ("latency_max", "14"),
        ("bandwidth", "3"),
    ]))
    .unwrap();
    assert_eq!(fixed.latency, 20);
    let shape = fixed.link_shape();
    assert_eq!((shape.latency, shape.bandwidth), (20_000_000, 3_145_728));
    assert_eq!(
        NetworkParams::new(&params(&[("latency", "20"), ("latency_max", "30")])).unwrap_err(),
        "bandwidth is not specified."
    );
}

#[test]
fn beacon_messages_are_generated_in_slots_of_twelve_seconds() {
    let settings = generator_settings(&Params::new(0, 9, 1, 0, 0, 1).unwrap());
    assert_eq!((settings.slot_duration, settings.slots_per_epoch), (12, 32));
    assert_eq!((settings.total_validators, settings.sync_subnet_size), (9, 2));
}
