use gossipsub_testground::censoring;
use gossipsub_testground::eth_consensus::network::metrics::{
    initialise_metrics, record_metrics, Metrics, RecordMetricsInfo,
};
use gossipsub_testground::eth_consensus::{node_run, utils, InstanceInfo};
use gossipsub_testground::influx::{Double, Timestamp, Type, WriteQuery};
use gossipsub_testground::openmetrics::{
    get_counter_value, get_gauge_value, Bucket, Gauge, HistogramValue, Label, Metric, MetricFamily,
    MetricPoint, Total, Value,
};
use gossipsub_testground::recording::can_record_all;

fn text(value: &Type) -> String {
    match value {
        Type::Float(double) => format!("f{}", f64::from_bits(double.bits)),
        Type::SignedInteger(number) => format!("i{number}"),
        Type::UnsignedInteger(number) => format!("u{number}"),
        Type::Text(text) => format!("'{text}'"),
    }
}

/// A query in one line.
fn line(query: &WriteQuery) -> String {
    let entries = |entries: &Vec<gossipsub_testground::influx::Entry>| {
        entries
            .iter()
            .map(|entry| format!("{}={}", entry.name, text(&entry.value)))
            .collect::<Vec<_>>()
            .join(",")
    };
    format!(
        "{}@{}.{} {} {}",
        query.measurement,
        query.timestamp.seconds,
        query.timestamp.nanos,
        entries(&query.tags),
        entries(&query.fields)
    )
}

fn lines(queries: &[WriteQuery]) -> Vec<String> {
    queries.iter().map(line).collect()
}

fn metric(labels: &[(&str, &str)], value: Value) -> Metric {
    Metric {
        labels: labels
            .iter()
            .map(|(name, value)| Label { name: name.to_string(), value: value.to_string() })
            .collect(),
        metric_points: vec![MetricPoint { value: Some(value) }],
    }
}

fn counter(labels: &[(&str, &str)], count: u64) -> Metric {
    metric(labels, Value::CounterValue(Some(Total::IntValue(count))))
}

fn gauge(labels: &[(&str, &str)], measure: i64) -> Metric {
    metric(labels, Value::GaugeValue(Some(Gauge::IntValue(measure))))
}

fn family(name: &str, metrics: Vec<Metric>) -> MetricFamily {
    MetricFamily { name: name.to_string(), metrics }
}

fn double(x: f64) -> Double {
    Double { bits: x.to_bits() }
}

const NOW: Timestamp = Timestamp { seconds: 5, nanos: 7 };

fn instance_info() -> InstanceInfo {
    InstanceInfo { peer_id: "P".to_string(), multiaddr: "/m".to_string() }
}

fn info(metrics: Vec<MetricFamily>) -> RecordMetricsInfo {
    RecordMetricsInfo {
        run_id: "R".to_string(),
        metrics,
        node_id: 3,
        instance_info: instance_info(),
        current: NOW,
    }
}

#[test]
fn counter_queries_carry_labels() {
    let counters = family(
        "topic_msg_published",
        vec![counter(&[("hash", "a")], 4), counter(&[], 0)],
    );
    assert_eq!(
        lines(&utils::queries_for_counter(NOW, &counters, 3, &instance_info(), "R")),
        vec![
            "topic_msg_published@5.7 instance_peer_id='P',instance_name='3',run_id='R',hash='a' count=u4",
            "topic_msg_published@5.7 instance_peer_id='P',instance_name='3',run_id='R' count=u0",
        ]
    );
}

#[test]
fn gauge_queries_name_their_field() {
    let gauges = family("mesh_peer_counts", vec![gauge(&[("hash", "a")], -2)]);
    assert_eq!(
        lines(&utils::queries_for_gauge(NOW, &gauges, 3, &instance_info(), "R", "count")),
        vec!["mesh_peer_counts@5.7 instance_peer_id='P',instance_name='3',run_id='R',hash='a' count=i-2"]
    );
    let instance = censoring::InstanceInfo { peer_id: "P".to_string(), name: "n_1".to_string() };
    assert_eq!(
        lines(&censoring::utils::queries_for_gauge(NOW, &gauges, &instance, "R", "status")),
        vec!["mesh_peer_counts@5.7 instance_peer_id='P',instance_name='n_1',run_id='R',hash='a' status=i-2"]
    );
}

#[test]
fn histogram_queries_list_the_buckets() {
    let histogram = Value::HistogramValue(HistogramValue {
        buckets: vec![
            Bucket { count: 1, upper_bound: double(0.5) },
            Bucket { count: 6, upper_bound: double(2.0) },
        ],
    });
    let histograms = family("heartbeat_duration", vec![metric(&[("k", "v")], histogram)]);
    assert_eq!(
        lines(&utils::queries_for_histogram(NOW, &histograms, 0, &instance_info(), "R")),
        vec![
            "heartbeat_duration@5.7 instance_peer_id='P',instance_name='0',run_id='R',k='v' count=u1,upper_bound=f0.5",
            "heartbeat_duration@5.7 instance_peer_id='P',instance_name='0',run_id='R',k='v' count=u6,upper_bound=f2",
        ]
    );
}

#[test]
fn joined_counters_take_the_first_partner() {
    let first = family(
        "a",
        vec![
            counter(&[("hash", "x")], 9),
            counter(&[("hash", "y")], 9),
            counter(&[("hash", "z")], 9),
            counter(&[], 9),
        ],
    );
    let second = family(
        "b",
        vec![
            counter(&[("other", "o"), ("hash", "x")], 2),
            counter(&[("hash", "x")], 5),
            metric(&[("hash", "y")], Value::CounterValue(Some(Total::DoubleValue(double(1.0))))),
            gauge(&[("hash", "unasked")], 7),
        ],
    );
    let queries = utils::queries_for_counter_join(
        NOW,
        &first,
        &second,
        "joined",
        1,
        &instance_info(),
        "R",
        |a, b| a * 10 + b,
    );
    assert_eq!(
        lines(&queries),
        vec![
            "joined@5.7 instance_peer_id='P',instance_name='1',run_id='R',hash='x' count=u92",
            "joined@5.7 instance_peer_id='P',instance_name='1',run_id='R' count=u92",
        ]
    );
}

#[test]
fn values_tell_whole_numbers_from_doubles() {
    assert_eq!(get_counter_value(&counter(&[], 8)), (Some(8), None));
    let total = Value::CounterValue(Some(Total::DoubleValue(double(1.5))));
    assert_eq!(get_counter_value(&metric(&[], total)), (None, Some(double(1.5))));
    assert_eq!(get_gauge_value(&gauge(&[], -8)), (Some(-8), None));
    let value = Value::GaugeValue(Some(Gauge::DoubleValue(double(2.5))));
    assert_eq!(get_gauge_value(&metric(&[], value)), (None, Some(double(2.5))));
}

#[test]
fn all_metrics_and_duplicates_are_recorded() {
    let families = vec![
        family("topic_subscription_status", vec![gauge(&[("hash", "a")], 1)]),
        family("peers_per_protocol", vec![gauge(&[("protocol", "g")], 6)]),
        family("topic_msg_recv_counts", vec![counter(&[("hash", "a")], 4)]),
        family("episub_ihave_message_stats", vec![counter(&[], 1)]),
        family(
            "topic_msg_recv_counts_unfiltered",
            vec![counter(&[("hash", "a")], 10), counter(&[("hash", "b")], 1)],
        ),
    ];
    assert!(can_record_all::<Metrics>(&families));
    let tags = "instance_peer_id='P',instance_name='3',run_id='R'";
    assert_eq!(
        lines(&record_metrics(&info(families))),
        vec![
            format!("topic_subscription_status@5.7 {tags},hash='a' status=i1"),
            format!("peers_per_protocol@5.7 {tags},protocol='g' peers=i6"),
            format!("topic_msg_recv_counts@5.7 {tags},hash='a' count=u4"),
            format!("topic_msg_recv_counts_unfiltered@5.7 {tags},hash='a' count=u10"),
            format!("topic_msg_recv_counts_unfiltered@5.7 {tags},hash='b' count=u1"),
            format!("topic_msg_recv_duplicates@5.7 {tags},hash='a' count=u6"),
        ]
    );
}

#[test]
fn fewer_received_than_passed_gives_no_duplicates() {
    let families = vec![
        family("topic_msg_recv_counts_unfiltered", vec![counter(&[], 2)]),
        family("topic_msg_recv_counts", vec![counter(&[], 5)]),
    ];
    let queries = node_run::record_metrics(&info(families));
    assert_eq!(
        line(queries.last().unwrap()),
        "topic_msg_recv_duplicates@5.7 instance_peer_id='P',instance_name='3',run_id='R' count=u0"
    );
    let alone = vec![family("topic_msg_recv_counts", vec![counter(&[], 5)])];
    assert_eq!(node_run::record_metrics(&info(alone)).len(), 1);
}

#[test]
fn unknown_or_odd_metrics_cannot_be_recorded() {
    assert!(!can_record_all::<Metrics>(&vec![family("surprise", vec![])]));
    assert!(!can_record_all::<node_run::Metrics>(&vec![family("memcache_size", vec![])]));
    assert!(can_record_all::<Metrics>(&vec![family("memcache_size", vec![])]));
    let odd = family("memcache_misses", vec![gauge(&[], 1)]);
    assert!(!can_record_all::<Metrics>(&vec![odd]));
    let empty = Metric { labels: vec![], metric_points: vec![] };
    assert!(!can_record_all::<Metrics>(&vec![family("memcache_misses", vec![empty])]));
}

#[test]
fn counters_of_all_topics_start_at_zero() {
    let queries = initialise_metrics(&info(vec![]));
    assert_eq!(queries.len(), 11 * 14);
    assert_eq!(
        line(&queries[0]),
        "topic_msg_published@5.7 instance_peer_id='P',instance_name='3',run_id='R',hash='Blocks' count=u0"
    );
    assert_eq!(
        line(&queries[11 * 14 - 1]),
        "episub_received_choke_messages@5.7 instance_peer_id='P',instance_name='3',run_id='R',hash='SignedContributionAndProof/3' count=u0"
    );
}

#[test]
fn instances_are_recorded_in_fields() {
    assert_eq!(
        line(&utils::record_instance_info(NOW, 12, "P", "R")),
        "participants@5.7 run_id='R' instance_name='12',instance_peer_id='P'"
    );
    let instance = censoring::InstanceInfo { peer_id: "P".to_string(), name: "n".to_string() };
    assert_eq!(
        line(&censoring::utils::record_instance_info(NOW, &instance, "R")),
        "participants@5.7 run_id='R' instance_name='n',instance_peer_id='P'"
    );
}
