use gossipsub_testground::scoring::attacker::{
    choose_target, ControlAction, MaliciousBehaviour, Prune, ReceivedRpc, Subscription,
    SubscriptionAction,
};
use gossipsub_testground::scoring::beacon_node::BeaconNodeInfo;
use gossipsub_testground::scoring::fragment::{fragment, PublishError};
use gossipsub_testground::scoring::rpc::{
    ControlGraft, ControlIHave, ControlIWant, ControlMessage, ControlPrune, Encoded, PeerInfo,
    PublishedMessage, Rpc, SubOpts,
};

fn published(size: usize) -> PublishedMessage {
    PublishedMessage {
        from: None,
        data: Some(vec![7; size]),
        seqno: None,
        topic: "t".to_string(),
        signature: None,
        key: None,
    }
}

fn subscription(topic: &str) -> SubOpts {
    SubOpts { subscribe: Some(true), topic_id: Some(topic.to_string()) }
}

fn graft(topic: &str) -> ControlGraft {
    ControlGraft { topic_id: Some(topic.to_string()) }
}

fn control(graft: Vec<ControlGraft>) -> ControlMessage {
    ControlMessage { ihave: vec![], iwant: vec![], graft, prune: vec![] }
}

fn rpc(publish: Vec<PublishedMessage>, subscriptions: Vec<SubOpts>, control: Option<ControlMessage>) -> Rpc {
    Rpc { subscriptions, publish, control }
}

/// The size of a field with contents of a size.
fn field(len: usize) -> usize {
    prost::encoding::key_len(1) + prost::encoding::encoded_len_varint(len as u64) + len
}

#[test]
fn sizes_on_the_wire_follow_the_encoding() {
    assert_eq!(subscription("abc").encoded_len(), 2 + field(3));
    let mut message = published(200);
    assert_eq!(message.encoded_len(), field(200) + field(1));
    message.from = Some(vec![]);
    message.topic = "é".to_string();
    assert_eq!(message.encoded_len(), field(0) + field(200) + field(2));
    let ihave = ControlIHave {
        topic_id: None,
        message_ids: vec![vec![1; 20], vec![2; 130]],
    };
    assert_eq!(ihave.encoded_len(), field(20) + field(130));
    let iwant = ControlIWant { message_ids: vec![vec![1; 20]] };
    assert_eq!(iwant.encoded_len(), field(20));
    let prune = ControlPrune {
        topic_id: Some("ab".to_string()),
        peers: vec![PeerInfo { peer_id: Some(vec![0; 38]), signed_peer_record: None }],
        backoff: Some(300),
    };
    assert_eq!(prune.encoded_len(), field(2) + field(field(38)) + 3);
    let controls = ControlMessage {
        ihave: vec![],
        iwant: vec![],
        graft: vec![graft("ab"), graft("")],
        prune: vec![prune],
    };
    let size = field(field(2)) + field(field(0)) + field(field(2) + field(field(38)) + 3);
    assert_eq!(controls.encoded_len(), size);
    let whole = rpc(vec![published(1)], vec![subscription("abc")], Some(controls));
    let items = field(field(1) + field(1)) + field(2 + field(3));
    assert_eq!(whole.encoded_len(), items + field(size));
}

#[test]
fn small_messages_are_not_cut() {
    let small = rpc(vec![published(10)], vec![], None);
    let size = small.encoded_len();
    let list = fragment(small, size + 1).unwrap();
    assert_eq!(list.len(), 1);
    assert_eq!(list[0].publish[0].data.as_ref().unwrap().len(), 10);
}

#[test]
fn large_messages_are_cut_between_items() {
    let large = rpc(
        (0..10).map(|_| published(50)).collect(),
        vec![subscription("a"), subscription("b")],
        Some(control(vec![graft("g")])),
    );
    let max = 130;
    let list = fragment(large, max).unwrap();
    assert!(list.len() > 4);
    assert_eq!(list.iter().map(|part| part.publish.len()).sum::<usize>(), 10);
    let topics: Vec<&str> = list
        .iter()
        .flat_map(|part| part.subscriptions.iter())
        .map(|subscription| subscription.topic_id.as_deref().unwrap())
        .collect();
    assert_eq!(topics, vec!["a", "b"]);
    let controls: Vec<&ControlMessage> = list.iter().filter_map(|part| part.control.as_ref()).collect();
    assert_eq!(controls.len(), 1);
    assert_eq!(controls[0].graft[0].topic_id.as_deref(), Some("g"));
    for part in &list {
        assert!(part.encoded_len() > 0);
        assert!(part.control.is_some() || part.encoded_len() <= max + 2);
    }
}

#[test]
fn fragments_hold_as_many_items_as_fit() {
    let items = |count: usize| rpc((0..count).map(|_| published(35)).collect(), vec![], None);
    let one = items(1).encoded_len();
    let list = fragment(items(3), 2 * one + 2).unwrap();
    assert_eq!(list.iter().map(|part| part.publish.len()).collect::<Vec<_>>(), vec![2, 1]);
    let list = fragment(items(3), 2 * one - 2).unwrap();
    assert_eq!(list.iter().map(|part| part.publish.len()).collect::<Vec<_>>(), vec![1, 1, 1]);
}

#[test]
fn oversized_items_cannot_be_sent() {
    let size = published(200).encoded_len();
    let oversized = || rpc(vec![published(10), published(200)], vec![], None);
    assert_eq!(fragment(oversized(), size + 1).unwrap_err(), PublishError::MessageTooLarge);
    assert_eq!(fragment(oversized(), size + 2).unwrap().len(), 2);
}

#[test]
fn oversized_control_messages_are_taken_apart() {
    let names: Vec<String> = (0..20).map(|i| format!("topic-{i:02}")).collect();
    let mut whole = control(names.iter().map(|name| graft(name)).collect());
    whole.ihave.push(ControlIHave { topic_id: None, message_ids: vec![vec![1; 30]] });
    let list = fragment(rpc(vec![], vec![], Some(whole)), 60).unwrap();
    assert!(list.len() > 1);
    assert_eq!(list[0].control.as_ref().unwrap().ihave.len(), 1);
    let sent: Vec<String> = list
        .iter()
        .flat_map(|part| part.control.as_ref().unwrap().graft.iter())
        .map(|graft| graft.topic_id.clone().unwrap())
        .collect();
    assert_eq!(sent, names);
}

fn grafted(message: &Rpc) -> Vec<String> {
    message
        .control
        .as_ref()
        .unwrap()
        .graft
        .iter()
        .map(|graft| graft.topic_id.clone().unwrap())
        .collect()
}

fn subscribed(message: &Rpc) -> Vec<String> {
    message
        .subscriptions
        .iter()
        .map(|subscription| {
            assert_eq!(subscription.subscribe, Some(true));
            subscription.topic_id.clone().unwrap()
        })
        .collect()
}

#[test]
fn topics_with_long_names_are_grafted_only() {
    let subscribe = |length: usize| {
        let mut behaviour = MaliciousBehaviour::new();
        let subscription = |topic_hash: String| Subscription {
            action: SubscriptionAction::Subscribe,
            topic_hash,
        };
        let subscriptions = vec![subscription("t".repeat(length)), subscription("u".to_string())];
        behaviour.handle_received_subscriptions(&subscriptions, "peer");
        let mut sent = Vec::new();
        while let Some(event) = behaviour.next_event() {
            assert!(event.message.publish.is_empty());
            sent.push(event);
        }
        sent
    };
    // A subscription takes two bytes for its kind, five before the name, and two must be left.
    let longest = 10_485_760 - 2 - 2 - 5;
    for (length, expected) in [(10_000_000, 2), (longest, 2), (longest + 1, 1), (10_485_760, 1)] {
        let sent = subscribe(length);
        let topics: Vec<String> =
            sent.iter().flat_map(|event| subscribed(&event.message)).collect();
        assert_eq!(topics.len(), expected);
        assert_eq!(topics[expected - 1], "u");
        let grafts: Vec<usize> = sent
            .iter()
            .flat_map(|event| event.message.control.iter())
            .flat_map(|control| control.graft.iter())
            .map(|graft| graft.topic_id.as_ref().unwrap().len())
            .collect();
        assert_eq!(grafts, vec![length, 1]);
    }
}

#[test]
fn fragments_with_control_items_stay_near_the_limit() {
    let max = 130;
    for size in 80..110 {
        let names: Vec<String> = (0..40).map(|i| format!("{i:03}")).collect();
        let whole = control(names.iter().map(|name| graft(name)).collect());
        let list = fragment(rpc(vec![published(size)], vec![], Some(whole)), max).unwrap();
        assert!(list.len() > 2);
        assert!(list.iter().all(|part| part.encoded_len() <= max + 4));
    }
    let lone = |length: usize| {
        let whole = control(vec![graft(&"n".repeat(length))]);
        fragment(rpc(vec![], vec![], Some(whole)), max).unwrap()[0].encoded_len()
    };
    assert_eq!(lone(max - 4), field(field(field(max - 4))));
    assert!(lone(max - 4) > max && lone(max - 4) <= max + 5);
}

#[test]
fn subscriptions_are_grafted_at_once_and_prunes_later() {
    let mut behaviour = MaliciousBehaviour::new();
    let subscribe = |action: SubscriptionAction, topic: &str| Subscription {
        action,
        topic_hash: topic.to_string(),
    };
    let regrafts = behaviour.inject_event(
        "peer",
        ReceivedRpc {
            subscriptions: vec![
                subscribe(SubscriptionAction::Subscribe, "a"),
                subscribe(SubscriptionAction::Unsubscribe, "b"),
                subscribe(SubscriptionAction::Subscribe, "c"),
            ],
            control_msgs: vec![
                ControlAction::IHave,
                ControlAction::Prune(Prune { topic_hash: "d".to_string(), backoff: Some(30) }),
                ControlAction::Graft,
                ControlAction::Prune(Prune { topic_hash: "e".to_string(), backoff: None }),
                ControlAction::IWant,
            ],
        },
    );
    let delays: Vec<(&str, &str, u64)> = regrafts
        .iter()
        .map(|regraft| (regraft.peer_id.as_str(), regraft.topic_hash.as_str(), regraft.delay))
        .collect();
    assert_eq!(delays, vec![("peer", "d", 35), ("peer", "e", 65)]);
    let sent = behaviour.next_event().unwrap();
    assert_eq!(sent.peer_id, "peer");
    assert!(sent.message.publish.is_empty());
    assert_eq!(subscribed(&sent.message), vec!["a", "c"]);
    assert_eq!(grafted(&sent.message), vec!["a", "c"]);
    assert!(behaviour.next_event().is_none());
}

#[test]
fn leaving_peers_are_not_grafted() {
    let mut behaviour = MaliciousBehaviour::new();
    let leaving = vec![Subscription {
        action: SubscriptionAction::Unsubscribe,
        topic_hash: "a".to_string(),
    }];
    behaviour.handle_received_subscriptions(&leaving, "peer");
    assert!(behaviour.next_event().is_none());
}

#[test]
fn grafts_are_sent_in_order() {
    let mut behaviour = MaliciousBehaviour::new();
    behaviour.regraft("p", "x".to_string());
    behaviour.regraft("q", "y".to_string());
    let first = behaviour.next_event().unwrap();
    assert!(first.message.subscriptions.is_empty() && first.message.publish.is_empty());
    assert_eq!((first.peer_id.as_str(), grafted(&first.message)), ("p", vec!["x".to_string()]));
    assert_eq!(behaviour.next_event().unwrap().peer_id, "q");
}

#[test]
fn messages_too_large_for_a_peer_are_refused() {
    let mut behaviour = MaliciousBehaviour::new();
    let sent = behaviour.send_message("p", rpc(vec![published(10_485_760)], vec![], None));
    assert_eq!(sent, Err(PublishError::MessageTooLarge));
    assert!(behaviour.next_event().is_none());
    let sent = behaviour.send_message(
        "p",
        rpc(vec![published(9_000_000), published(9_000_000)], vec![], None),
    );
    assert_eq!(sent, Ok(()));
    assert_eq!(behaviour.events.len(), 2);
    let whole = rpc(vec![published(8)], vec![], None);
    assert_eq!(behaviour.fragment_message(whole).unwrap().len(), 1);
}

#[test]
fn node_with_most_validators_is_censored() {
    let node = |id: usize, validators: usize| {
        (
            id,
            BeaconNodeInfo {
                peer_id: String::new(),
                multiaddr: String::new(),
                validators: vec![0; validators],
            },
        )
    };
    assert_eq!(choose_target(&vec![node(4, 1), node(3, 5), node(9, 5), node(8, 2)]), 3);
    assert_eq!(choose_target(&vec![node(4, 0), node(3, 0)]), 0);
    assert_eq!(choose_target(&vec![]), 0);
}
