use gossipsub_testground::eth_consensus::Message;
use gossipsub_testground::gen_topology::Params;
use gossipsub_testground::influx::{Timestamp, Type, WriteQuery};
use gossipsub_testground::openmetrics::{Metric, MetricFamily, MetricPoint, Total, Value};
use gossipsub_testground::scoring_parameters::honest::{
    generator_settings, record_metrics, GossipsubEvent, Network, SimAction, SimEvent,
};
use gossipsub_testground::scoring_parameters::utils::queries_for_received_beacon_blocks;
use gossipsub_testground::scoring_parameters::InstanceInfo;
use std::collections::{BTreeMap, BTreeSet};

const NOW: Timestamp = Timestamp { seconds: 9, nanos: 0 };

fn info(name: &str) -> InstanceInfo {
    InstanceInfo { peer_id: name.to_string(), multiaddr: format!("/ip4/{name}") }
}

fn network() -> Network {
    Network::new(3, info("P"), BTreeMap::from([(1, info("one"))]))
}

/// Measurement, time, epoch and count of a query.
fn summary(query: &WriteQuery) -> (String, i64, u64, u64) {
    let number = |value: &Type| match value {
        Type::UnsignedInteger(number) => *number,
        other => panic!("unexpected {other:?}"),
    };
    assert_eq!(query.tags[0].name, "instance_peer_id");
    assert_eq!(query.tags[1].name, "run_id");
    (
        query.measurement.clone(),
        query.timestamp.seconds,
        number(&query.tags[2].value),
        number(&query.fields[0].value),
    )
}

#[test]
fn only_blocks_are_gossiped() {
    let mut network = network();
    assert_eq!(network.subscribe_topics(), vec!["\"Blocks\""]);
    match network.on_event(SimEvent::Generated(Message::BeaconBlock { proposer: 2, slot: 7 })) {
        SimAction::Publish { topic, validator, slot } => {
            assert_eq!((topic.as_str(), validator, slot), ("\"Blocks\"", 2, 7));
        }
        other => panic!("unexpected {other:?}"),
    }
    let other = Message::Attestation { attester: 1, subnet: 0, slot: 7 };
    assert!(matches!(network.on_event(SimEvent::Generated(other)), SimAction::Nothing));
    assert!(matches!(network.on_event(SimEvent::ScoresDue), SimAction::Nothing));
    assert!(matches!(network.on_event(SimEvent::Deadline), SimAction::Stop));
}

#[test]
fn blocks_are_noted_by_epochs_of_two_slots() {
    let mut network = network();
    for slot in [2, 3, 3, 7] {
        network.on_event(SimEvent::Gossipsub(GossipsubEvent::Block { slot }));
    }
    network.on_event(SimEvent::Gossipsub(GossipsubEvent::Other));
    assert_eq!(
        network.received_beacon_blocks,
        BTreeMap::from([(1, BTreeSet::from([2, 3])), (3, BTreeSet::from([7]))])
    );
    assert!(network.handle_gossipsub_event(GossipsubEvent::Block { slot: 7 }));
    assert!(!network.handle_gossipsub_event(GossipsubEvent::Block { slot: 6 }));
    let starts = BTreeMap::from([
        (1, Timestamp { seconds: 12, nanos: 0 }),
        (3, Timestamp { seconds: 36, nanos: 0 }),
    ]);
    let records: Vec<_> = network
        .record_received_beacon_blocks("R", &starts)
        .iter()
        .map(summary)
        .collect();
    let block = "beacon_block".to_string();
    assert_eq!(records, vec![(block.clone(), 12, 1, 2), (block.clone(), 36, 3, 2)]);
    let records: Vec<_> = queries_for_received_beacon_blocks(
        NOW,
        &info("P"),
        &network.received_beacon_blocks,
        "R",
    )
    .iter()
    .map(summary)
    .collect();
    assert_eq!(records, vec![(block.clone(), 9, 1, 2), (block, 9, 3, 2)]);
}

#[test]
fn only_penalties_are_recorded() {
    let family = |name: &str| MetricFamily {
        name: name.to_string(),
        metrics: vec![Metric {
            labels: vec![],
            metric_points: vec![MetricPoint {
                value: Some(Value::CounterValue(Some(Total::IntValue(8)))),
            }],
        }],
    };
    let families = vec![family("memcache_misses"), family("scoring_penalties"), family("new")];
    let queries = record_metrics(NOW, &info("P"), "R", &families);
    assert_eq!(queries.len(), 1);
    assert_eq!(queries[0].measurement, "scoring_penalties");
    assert!(matches!(queries[0].fields[0].value, Type::UnsignedInteger(8)));
}

#[test]
fn blocks_are_generated_in_slots_of_six_seconds() {
    let settings = generator_settings(&Params::new(0, 5, 1, 0, 0, 1).unwrap());
    assert_eq!((settings.slot_duration, settings.slots_per_epoch), (6, 2));
    let outbound = BTreeMap::from([(3, vec![1])]);
    assert_eq!(network().dial_peers(&outbound)[0].multiaddr, "/ip4/one");
}
