use gossipsub_testground::episub::honest::{
    Action, Event, HonestMessage, HonestNetwork, PublishState, TestParams,
};
use gossipsub_testground::episub::node_run::{self, goes_on, SimEvent};
use gossipsub_testground::episub::InstanceInfo;
use std::collections::BTreeMap;

#[test]
fn messages_are_published_between_start_and_stop() {
    let test_params = TestParams { peers_to_connect: 1, message_rate: 4, warmup: 0, run: 0 };
    let mut network = HonestNetwork::new("emulate", &test_params);
    assert_eq!(network.publish_interval, 250);
    assert!(matches!(network.on_event(Event::PublishDue), Action::Nothing));
    let subscribe = Event::Told(HonestMessage::Subscribe("emulate".to_string()));
    assert!(matches!(network.on_event(subscribe), Action::Subscribe(topic) if topic == "emulate"));
    assert!(matches!(
        network.on_event(Event::Told(HonestMessage::StartPublishing)),
        Action::Nothing
    ));
    match network.on_event(Event::PublishDue) {
        Action::Publish { topic, message } => {
            assert_eq!((topic.as_str(), message.as_str()), ("emulate", "message"));
        }
        other => panic!("unexpected {other:?}"),
    }
    assert!(matches!(network.on_event(Event::ScoresDue), Action::Nothing));
    assert!(matches!(network.on_event(Event::Swarm), Action::Nothing));
    network.on_event(Event::Told(HonestMessage::StopPublishing));
    assert!(matches!(network.on_event(Event::PublishDue), Action::Nothing));
    assert_eq!(network.publish_state, PublishState::Stopped);
}

#[test]
fn episub_run_ends_at_the_deadline() {
    assert!(!goes_on(SimEvent::Deadline));
    assert!(goes_on(SimEvent::ScoresDue) && goes_on(SimEvent::Swarm));
}

#[test]
fn episub_peers_are_dialed_in_order() {
    let info = |name: &str| InstanceInfo {
        peer_id: name.to_string(),
        multiaddr: format!("/ip4/{name}"),
    };
    let network = node_run::Network {
        node_id: 1,
        instance_info: info("one"),
        test_params: node_run::TestParams { warmup: 1, run: 2 },
        participants: BTreeMap::from([(0, info("zero")), (2, info("two"))]),
        validator_set: vec![],
    };
    let outbound = BTreeMap::from([(1, vec![2, 0])]);
    let targets: Vec<&str> = network
        .dial_peers(&outbound)
        .into_iter()
        .map(|info| info.peer_id.as_str())
        .collect();
    assert_eq!(targets, vec!["two", "zero"]);
}
