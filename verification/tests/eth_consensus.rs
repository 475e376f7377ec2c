use gossipsub_testground::bytes::append_be_bytes;
use gossipsub_testground::eth_consensus::network::run::{SimAction, SimEvent};
use gossipsub_testground::eth_consensus::network::{route, topics, Network, SwarmEvent, Topic};
use gossipsub_testground::eth_consensus::{node_run, InstanceInfo, Message};
use gossipsub_testground::gen_topology::{Network as Topology, Params};
use gossipsub_testground::hashing::gossip_message_id;
use gossipsub_testground::participants::{collect_others, first_stranger, validator_set};
use sha2::Digest;
use std::collections::{BTreeMap, BTreeSet};

fn info(name: &str) -> InstanceInfo {
    InstanceInfo { peer_id: name.to_string(), multiaddr: format!("/ip4/{name}") }
}

fn network() -> Network {
    Network {
        node_id: 0,
        instance_info: info("zero"),
        participants: BTreeMap::from([(1, info("one")), (2, info("two")), (3, info("three"))]),
    }
}

#[test]
fn topic_names_read_back() {
    for (topic, name) in [
        (Topic::Blocks, "Blocks"),
        (Topic::Aggregates, "Aggregates"),
        (Topic::Attestations(0), "Attestations/0"),
        (Topic::SyncMessages(17), "SyncMessages/17"),
        (Topic::SignedContributionAndProof(u64::MAX), "SignedContributionAndProof/18446744073709551615"),
    ] {
        assert_eq!(topic.to_text(), name);
        assert_eq!(Topic::from_text(name), Some(topic));
    }
}

#[test]
fn other_texts_name_no_topic() {
    for text in ["", "Block", "Attestations", "Attestations/", "Attestations/x", "Blocks/1", "a/Attestations/1"] {
        assert_eq!(Topic::from_text(text), None);
    }
    assert_eq!(Topic::from_text("Attestations/+5"), Some(Topic::Attestations(5)));
}

#[test]
fn all_topics_are_subscribed_to_in_order() {
    let names = network().subscribe_topics();
    assert_eq!(names.len(), 14);
    assert_eq!(names.len(), topics().len());
    assert_eq!(&names[..4], ["Blocks", "Aggregates", "Attestations/0", "Attestations/1"]);
    assert_eq!(&names[6..9], ["SyncMessages/0", "SignedContributionAndProof/0", "SyncMessages/1"]);
}

#[test]
fn messages_are_routed_by_kind() {
    assert_eq!(route(&Message::BeaconBlock { proposer: 5, slot: 1 }), (Topic::Blocks, 5));
    assert_eq!(
        route(&Message::AggregateAndProofAttestation { aggregator: 6, subnet: 2, slot: 1 }),
        (Topic::Aggregates, 6)
    );
    assert_eq!(
        route(&Message::Attestation { attester: 7, subnet: 2, slot: 1 }),
        (Topic::Attestations(2), 7)
    );
    assert_eq!(
        route(&Message::SignedContributionAndProof { validator: 8, subnet: 3, slot: 1 }),
        (Topic::SignedContributionAndProof(3), 8)
    );
    assert_eq!(
        route(&Message::SyncCommitteeMessage { validator: 9, subnet: 1, slot: 1 }),
        (Topic::SyncMessages(1), 9)
    );
}

#[test]
fn published_messages_end_with_the_validator() {
    let (name, data) = network().publish(Topic::Attestations(1), 0x0102_0304_0506_0708, vec![9, 9]);
    assert_eq!(name, "Attestations/1");
    assert_eq!(data, vec![9, 9, 1, 2, 3, 4, 5, 6, 7, 8]);
    for n in [0, 1, 255, 256, 1 << 40, u64::MAX] {
        let mut bytes = vec![];
        append_be_bytes(&mut bytes, n);
        assert_eq!(bytes, n.to_be_bytes());
    }
}

#[test]
fn message_ids_start_the_digest_of_topic_and_data() {
    let expected = sha2::Sha256::digest([b"Blocks\xc3\xa9".as_slice(), &[1, 2, 3]].concat());
    assert_eq!(gossip_message_id("Blocksé", &vec![1, 2, 3]), expected[..20].to_vec());
    assert_eq!(
        gossip_message_id("", &vec![])[..4],
        [0xe3, 0xb0, 0xc4, 0x42]
    );
}

#[test]
fn validation_delays_grow_with_the_size() {
    let mut largest = [0; 3];
    for _ in 0..300 {
        for (i, (size, limit)) in [(300, 50), (600, 80), (601, 500)].into_iter().enumerate() {
            let validation = network().custom_validation(vec![1], "one".to_string(), size);
            assert_eq!(validation.message_id, vec![1]);
            assert_eq!(validation.peer_id, "one");
            assert!(validation.delay < limit);
            largest[i] = largest[i].max(validation.delay);
        }
    }
    assert!(largest[2] >= 80);
    assert!(largest[0] > 0 && largest[1] > 0);
}

#[test]
fn received_messages_are_validated_later() {
    let event = SwarmEvent::Message {
        propagation_source: "two".to_string(),
        message_id: vec![4, 2],
        topic: "Blocks".to_string(),
        size: 10,
    };
    let validation = network().handle_swarm_event(event).unwrap();
    assert_eq!((validation.peer_id.as_str(), validation.message_id), ("two", vec![4, 2]));
    assert!(network().handle_swarm_event(SwarmEvent::Other).is_none());
}

#[test]
fn sources_are_found_among_participants() {
    assert_eq!(network().source_node("three"), Some(3));
    assert_eq!(network().source_node("zero"), None);
}

#[test]
fn outbound_peers_are_dialed_in_order() {
    let network = network();
    let outbound = BTreeMap::from([(0, vec![3, 1]), (1, vec![2])]);
    let targets: Vec<&str> = network
        .dial_peers(&outbound)
        .into_iter()
        .map(|info| info.multiaddr.as_str())
        .collect();
    assert_eq!(targets, vec!["/ip4/three", "/ip4/one"]);
    assert!(network.dial_peers(&BTreeMap::new()).is_empty());
    assert_eq!(first_stranger(&network.participants, &vec![1, 9, 3, 8]), Some(9));
    assert_eq!(first_stranger(&network.participants, &vec![3, 1]), None);
}

#[test]
fn participants_leave_out_the_node_itself() {
    let others = collect_others(vec![(0, "a"), (1, "b"), (2, "c"), (1, "d")], 0);
    assert_eq!(others, BTreeMap::from([(1, "d"), (2, "c")]));
}

#[test]
fn generated_peers_take_part() {
    let params = Params::new(11, 20, 6, 3, 2, 4).unwrap();
    let (_, outbound, _) = Topology::generate(params).unwrap().destructure();
    for node_id in 0..9 {
        let infos = (0..9).map(|id| (id, info(&format!("n{id}")))).collect();
        let participants = collect_others(infos, node_id);
        let peers = outbound.get(&node_id).cloned().unwrap_or_default();
        assert_eq!(first_stranger(&participants, &peers), None);
        let network = Network { node_id, instance_info: info("own"), participants };
        let dialed: Vec<String> = network
            .dial_peers(&outbound)
            .into_iter()
            .map(|info| info.peer_id.clone())
            .collect();
        let expected: Vec<String> = peers.iter().map(|id| format!("n{id}")).collect();
        assert_eq!(dialed, expected);
    }
}

#[test]
fn validators_of_a_node_are_ascending() {
    let assignments = BTreeMap::from([(4, BTreeSet::from([9, 2, 5]))]);
    assert_eq!(validator_set(&assignments, 4), vec![2, 5, 9]);
    assert_eq!(validator_set(&assignments, 5), Vec::<u64>::new());
}

#[test]
fn consensus_run_answers_events() {
    let network = network();
    assert!(matches!(network.on_event(SimEvent::Deadline), SimAction::Stop));
    assert!(matches!(network.on_event(SimEvent::MetricsDue), SimAction::RecordMetrics));
    assert!(matches!(network.on_event(SimEvent::Written), SimAction::Nothing));
    let message = Message::SyncCommitteeMessage { validator: 1, subnet: 3, slot: 0 };
    match network.on_event(SimEvent::Generated { message, payload: vec![7] }) {
        SimAction::Publish { topic, data } => {
            assert_eq!(topic, "SyncMessages/3");
            assert_eq!(data, vec![7, 0, 0, 0, 0, 0, 0, 0, 1]);
        }
        other => panic!("unexpected {other:?}"),
    }
    let due = SimEvent::ValidationDue { message_id: vec![1], peer_id: "one".to_string() };
    match network.on_event(due) {
        SimAction::Accept { message_id, peer_id } => {
            assert_eq!((message_id, peer_id.as_str()), (vec![1], "one"));
        }
        other => panic!("unexpected {other:?}"),
    }
}

#[test]
fn json_messages_hold_validator_and_payload() {
    let network = node_run::Network {
        node_id: 0,
        instance_info: info("zero"),
        participants: BTreeMap::new(),
    };
    let message = Message::BeaconBlock { proposer: 12, slot: 3 };
    match network.on_event(node_run::SimEvent::Generated { message, payload: vec![0, 255, 7] }) {
        node_run::SimAction::Publish { topic, data } => {
            assert_eq!(topic, "\"Blocks\"");
            assert_eq!(data, b"[12,[0,255,7]]");
        }
        other => panic!("unexpected {other:?}"),
    }
    let topic = gossipsub_testground::scoring::topic::Topic::Aggregates(2);
    let (name, data) = network.publish(topic, 1, &vec![]);
    assert_eq!(name, "{\"Aggregates\":2}");
    assert_eq!(data, b"[1,[]]");
    assert_eq!(network.subscribe_topics().len(), 17);
}

#[test]
fn json_run_answers_events() {
    let network = node_run::Network {
        node_id: 0,
        instance_info: info("zero"),
        participants: BTreeMap::from([(1, info("one"))]),
    };
    assert!(matches!(network.on_event(node_run::SimEvent::Deadline), node_run::SimAction::Stop));
    assert!(matches!(network.on_event(node_run::SimEvent::Swarm), node_run::SimAction::Nothing));
    assert!(matches!(
        network.on_event(node_run::SimEvent::MetricsDue),
        node_run::SimAction::RecordMetrics
    ));
    let outbound = BTreeMap::from([(0, vec![1])]);
    assert_eq!(network.dial_peers(&outbound)[0].peer_id, "one");
    let settings = node_run::gossipsub_settings();
    assert_eq!((settings.mesh_n, settings.mesh_n_low, settings.mesh_n_high), (8, 4, 12));
}
