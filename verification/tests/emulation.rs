use gossipsub_testground::emulation::attacker::{find_victim, MaliciousBehaviour};
use gossipsub_testground::emulation::honest::{
    count_honest, record_metrics, select_peers, HonestBehaviour, PeerScore, Publisher, TestParams,
};
use gossipsub_testground::emulation::utils::{
    add_counter_metrics, add_gauge_metrics, get_topic_hash,
};
use gossipsub_testground::emulation::{remove_self, InstanceInfo, Role};
use gossipsub_testground::influx::{Double, Timestamp, Type, WriteQuery};
use gossipsub_testground::instance_params::InstanceParams;
use gossipsub_testground::openmetrics::{
    Gauge, Label, Metric, MetricFamily, MetricPoint, Total, Value,
};
use gossipsub_testground::scoring::attacker::{Subscription, SubscriptionAction};
use rand::seq::SliceRandom;
use rand::SeedableRng;

const NOW: Timestamp = Timestamp { seconds: 1, nanos: 2 };

fn instance(name: &str, role: Role, group_seq: u64) -> InstanceInfo {
    InstanceInfo {
        global_seq: 0,
        group_seq,
        peer_id: name.to_string(),
        multiaddr: format!("/ip4/{name}"),
        role,
    }
}

fn params(pairs: &[(&str, &str)]) -> InstanceParams {
    let mut params = InstanceParams::new();
    for (key, text) in pairs {
        params.insert(key.to_string(), text.to_string(), None);
    }
    params
}

fn names(infos: &[InstanceInfo]) -> Vec<String> {
    infos.iter().map(|info| info.peer_id.clone()).collect()
}

#[test]
fn roles_follow_the_group() {
    assert_eq!(Role::from_group("publishers"), Some(Role::Publisher));
    assert_eq!(Role::from_group("lurkers"), Some(Role::Lurker));
    assert_eq!(Role::from_group("attackers"), Some(Role::Attacker));
    assert_eq!(Role::from_group("others"), None);
    assert!(Role::Lurker.is_honest() && Role::Publisher.is_honest());
    assert!(!Role::Attacker.is_honest());
    assert!(Role::Publisher.is_publisher() && !Role::Lurker.is_publisher());
}

#[test]
fn own_info_is_removed_once() {
    let infos = || vec![
        instance("a", Role::Lurker, 1),
        instance("b", Role::Lurker, 2),
        instance("a", Role::Lurker, 3),
    ];
    assert_eq!(names(&remove_self(infos(), "a").unwrap()), vec!["b", "a"]);
    assert!(remove_self(infos(), "c").is_none());
}

#[test]
fn first_publisher_is_the_victim() {
    let infos = vec![
        instance("a", Role::Lurker, 1),
        instance("b", Role::Publisher, 2),
        instance("c", Role::Publisher, 1),
        instance("d", Role::Publisher, 1),
    ];
    assert_eq!(find_victim(&infos).unwrap().peer_id, "c");
    assert!(find_victim(&vec![instance("a", Role::Attacker, 1)]).is_none());
}

#[test]
fn attackers_subscribe_and_graft() {
    let mut behaviour = MaliciousBehaviour::new();
    assert!(behaviour.next_event().is_none());
    let subscription = |action: SubscriptionAction, topic: &str| Subscription {
        action,
        topic_hash: topic.to_string(),
    };
    behaviour.inject_event("v", &vec![]);
    assert!(behaviour.next_event().is_none());
    behaviour.inject_event(
        "v",
        &vec![
            subscription(SubscriptionAction::Unsubscribe, "other"),
            subscription(SubscriptionAction::Subscribe, "emulate"),
        ],
    );
    let answer = behaviour.next_event().unwrap();
    assert_eq!(answer.peer_id, "v");
    assert!(answer.message.publish.is_empty());
    assert_eq!(answer.message.subscriptions.len(), 1);
    assert_eq!(answer.message.subscriptions[0].subscribe, Some(true));
    assert_eq!(answer.message.subscriptions[0].topic_id.as_deref(), Some("emulate"));
    let grafts = answer.message.control.unwrap().graft;
    assert_eq!(grafts.len(), 1);
    assert_eq!(grafts[0].topic_id.as_deref(), Some("emulate"));
    assert!(behaviour.next_event().is_none());
}

#[test]
fn instances_are_named_by_role_and_number() {
    assert_eq!(instance("a", Role::Publisher, 1).name(), "Publisher1");
    assert_eq!(instance("a", Role::Lurker, 20).name(), "Lurker20");
    assert_eq!(instance("a", Role::Attacker, 0).name(), "Attacker0");
}

#[test]
fn emulation_parameters_are_read() {
    let full = [("peers_to_connect", "4"), ("message_rate", "3"), ("warmup", "5"), ("run", "60")];
    let test_params = TestParams::new(&params(&full)).unwrap();
    assert_eq!((test_params.peers_to_connect, test_params.message_rate), (4, 3));
    assert_eq!(test_params.publish_interval(), 333);
    assert_eq!(test_params.total_expected_messages(), 60_000 / 333);
    for missing in 0..4 {
        let pairs: Vec<(&str, &str)> = full
            .iter()
            .cloned()
            .filter(|(key, _)| *key != full[missing].0)
            .collect();
        assert_eq!(
            TestParams::new(&params(&pairs)).unwrap_err(),
            format!("{} is not specified.", full[missing].0)
        );
    }
    assert_eq!(
        TestParams::new(&params(&[("peers_to_connect", "?")])).unwrap_err(),
        "invalid digit found in string"
    );
}

#[test]
fn peers_are_selected_by_the_generator() {
    let infos = || -> Vec<InstanceInfo> {
        (0..12)
            .map(|i| {
                let role = if i % 3 == 0 { Role::Attacker } else { Role::Lurker };
                instance(&format!("p{i}"), role, i)
            })
            .collect()
    };
    assert_eq!(count_honest(&infos()), 8);
    for seed in [1, 5, 77] {
        let mut honest: Vec<String> = infos()
            .iter()
            .filter(|info| info.role.is_honest())
            .map(|info| info.peer_id.clone())
            .collect();
        honest.shuffle(&mut rand::rngs::StdRng::seed_from_u64(seed));
        assert_eq!(names(&select_peers(infos(), seed, 3)), honest[..3]);
    }
    assert!(select_peers(infos(), 1, 0).is_empty());
    let mut all = names(&select_peers(infos(), 3, 8));
    all.sort();
    assert_eq!(all, vec!["p1", "p10", "p11", "p2", "p4", "p5", "p7", "p8"]);
}

#[test]
fn published_messages_are_counted() {
    let mut publisher = Publisher::new();
    assert_eq!(publisher.next_message(), "message 0");
    assert_eq!(publisher.next_message(), "message 1");
    assert_eq!(publisher.message_counter, 2);
}

fn metric(hash: &str, value: Value) -> Metric {
    Metric {
        labels: vec![
            Label { name: "kind".to_string(), value: "k".to_string() },
            Label { name: "hash".to_string(), value: hash.to_string() },
            Label { name: "hash".to_string(), value: "later".to_string() },
        ],
        metric_points: vec![MetricPoint { value: Some(value) }],
    }
}

fn fields(query: &WriteQuery) -> Vec<String> {
    query
        .fields
        .iter()
        .map(|entry| match &entry.value {
            Type::Float(double) => format!("{}={}", entry.name, f64::from_bits(double.bits)),
            Type::SignedInteger(number) => format!("{}=i{}", entry.name, number),
            Type::UnsignedInteger(number) => format!("{}=u{}", entry.name, number),
            Type::Text(text) => format!("{}='{}'", entry.name, text),
        })
        .collect()
}

#[test]
fn metrics_of_topics_become_fields() {
    let count = |n: u64| Value::CounterValue(Some(Total::IntValue(n)));
    let counters = MetricFamily {
        name: "c".to_string(),
        metrics: vec![metric("x", count(3)), metric("y", count(4))],
    };
    assert_eq!(get_topic_hash(&counters.metrics[0].labels), "x");
    let query = add_counter_metrics(WriteQuery::new(NOW, "m"), &counters);
    assert_eq!(fields(&query), vec!["c_x=u3", "c_y=u4"]);
    let gauges = MetricFamily {
        name: "g".to_string(),
        metrics: vec![metric("x", Value::GaugeValue(Some(Gauge::IntValue(-1))))],
    };
    let query = add_gauge_metrics(query, &gauges);
    assert_eq!(fields(&query), vec!["c_x=u3", "c_y=u4", "g_x=i-1"]);
    let info = instance("P", Role::Publisher, 7);
    let families = vec![MetricFamily {
        name: "mesh_peer_counts".to_string(),
        metrics: vec![metric("x", Value::GaugeValue(Some(Gauge::IntValue(6))))],
    }];
    let queries = record_metrics(NOW, &info, "R", &families);
    assert_eq!(queries.len(), 1);
    assert_eq!(queries[0].measurement, "mesh_peer_counts");
    assert_eq!(queries[0].tags[1].name, "instance_name");
    assert!(matches!(&queries[0].tags[1].value, Type::Text(name) if name == "Publisher7"));
    assert_eq!(fields(&queries[0]), vec!["count=i6"]);
}

#[test]
fn scores_are_recorded_under_names() {
    let behaviour = HonestBehaviour::new(
        instance("P", Role::Lurker, 3),
        vec![
            instance("a", Role::Lurker, 1),
            instance("b", Role::Attacker, 2),
            instance("a", Role::Publisher, 1),
        ],
    );
    assert_eq!(behaviour.score_interval, 1);
    let score = |peer: &str, x: f64| PeerScore {
        peer_id: peer.to_string(),
        score: Double { bits: x.to_bits() },
    };
    let scores = vec![score("b", 0.25), score("a", -1.0)];
    assert!(behaviour.knows_all(&scores));
    assert!(!behaviour.knows_all(&vec![score("a", 0.0), score("z", 0.0)]));
    let record = behaviour.record_scores(NOW, "R", &scores).unwrap();
    assert_eq!(record.measurement, "scores");
    assert_eq!(fields(&record), vec!["Attacker2=0.25", "Publisher1=-1"]);
    let tags: Vec<&str> = record.tags.iter().map(|tag| tag.name.as_str()).collect();
    assert_eq!(tags, vec!["instance_peer_id", "instance_name", "run_id"]);
    assert!(behaviour.record_scores(NOW, "R", &vec![]).is_none());
}
