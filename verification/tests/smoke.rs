use gossipsub_testground::smoke::run::{RunAction, RunEvent, SmokeRun, Stage};
use gossipsub_testground::smoke::{select_peer, Counted, Event, Phase, Progress, Smoke, Tally};
use rand::seq::SliceRandom;
use rand::SeedableRng;

fn addresses(names: &[&str]) -> Vec<String> {
    names.iter().map(|name| name.to_string()).collect()
}

fn message(source: &str) -> Event {
    Event::Message { source: source.to_string() }
}

#[test]
fn selected_peer_follows_the_generator() {
    let names = ["/a", "/b", "/c", "/d", "/e", "/f", "/g"];
    for seed in [1, 2, 7, 1_000] {
        let mut others = addresses(&names[1..]);
        others.shuffle(&mut rand::rngs::StdRng::seed_from_u64(seed));
        assert_eq!(select_peer(addresses(&names), "/a", seed), others.pop());
    }
}

#[test]
fn single_instance_has_no_peer_to_select() {
    assert_eq!(select_peer(addresses(&["/a"]), "/a", 1), None);
    assert_eq!(select_peer(addresses(&["/a", "/b"]), "/a", 2), Some("/b".to_string()));
}

#[test]
fn waiting_ends_with_the_last_subscription() {
    let mut smoke = Smoke::new();
    assert_eq!(smoke.on_event(&Phase::Barrier, Event::Subscribed), Progress::Waiting);
    let phase = Phase::Subscribing { all_peers: 3 };
    assert!(smoke.must_wait(&phase));
    assert_eq!(smoke.on_event(&phase, Event::Other), Progress::Waiting);
    assert_eq!(smoke.on_event(&phase, Event::Subscribed), Progress::Waiting);
    assert!(smoke.must_wait(&phase));
    assert_eq!(smoke.on_event(&phase, Event::Subscribed), Progress::Done);
    assert!(!smoke.must_wait(&phase));
}

#[test]
fn waiting_ends_with_the_last_message() {
    let mut smoke = Smoke::new();
    let phase = Phase::Receiving { instances: 4 };
    assert_eq!(smoke.on_event(&Phase::Barrier, message("a")), Progress::Waiting);
    assert_eq!(smoke.on_event(&phase, message("b")), Progress::Waiting);
    assert_eq!(smoke.on_event(&phase, Event::Gossipsub), Progress::Waiting);
    assert_eq!(smoke.on_event(&phase, Event::Subscribed), Progress::Waiting);
    assert_eq!(smoke.subscribed, 0);
    assert_eq!(smoke.on_event(&phase, message("b")), Progress::Duplicate);
    assert!(smoke.must_wait(&phase));
    assert_eq!(smoke.on_event(&phase, message("c")), Progress::Done);
    assert!(!smoke.must_wait(&phase));
    assert_eq!(smoke.on_event(&Phase::Barrier, message("c")), Progress::Duplicate);
}

#[test]
fn only_a_dialed_connection_counts() {
    let mut smoke = Smoke::new();
    assert!(smoke.must_wait(&Phase::Connecting));
    assert_eq!(smoke.on_event(&Phase::Connecting, Event::Other), Progress::Waiting);
    assert_eq!(smoke.on_event(&Phase::Connecting, Event::Dialed), Progress::Done);
}

#[test]
fn tally_reaches_its_goal_once() {
    let mut tally = Tally { count: 0, goal: 2 };
    assert!(!tally.hit());
    assert!(tally.hit());
    assert!(!tally.hit());
}

#[test]
fn tally_counts_what_it_is_for() {
    let events = || vec![Event::Dialed, Event::Subscribed, message("a"), Event::Other];
    for (counted, place) in
        [(Counted::Connections, 0), (Counted::Subscriptions, 1), (Counted::Messages, 2)]
    {
        let mut tally = Tally { count: 0, goal: 2 };
        for round in 0..2 {
            for (i, event) in events().iter().enumerate() {
                if counted.can_come(event) {
                    let reached = tally.on_event(counted, event);
                    assert_eq!(reached, round == 1 && i == place);
                } else {
                    assert!(counted == Counted::Subscriptions && i == 2);
                }
            }
        }
        assert_eq!(tally.count, 2);
    }
    assert!(!Counted::Subscriptions.can_come(&Event::Gossipsub));
    assert!(Counted::Messages.can_come(&Event::Gossipsub));
}

/// Takes a run of three instances up to the publishing of the message.
fn publishing(strict: bool) -> SmokeRun {
    let (mut run, first) = SmokeRun::new(3, strict);
    assert!(matches!(first, RunAction::SignalAndWait(state) if state == "Started listening"));
    assert!(matches!(run.step(RunEvent::BarrierPassed), RunAction::Collect));
    let collected = RunEvent::Collected {
        addresses: addresses(&["/me", "/you"]),
        own: "/me".to_string(),
    };
    assert!(matches!(run.step(collected), RunAction::Dial(address) if address == "/you"));
    assert!(matches!(run.step(RunEvent::Swarm(Event::Other)), RunAction::Nothing));
    assert!(matches!(
        run.step(RunEvent::Swarm(Event::Dialed)),
        RunAction::SignalAndWait(state) if state == "Connected to a peer"
    ));
    assert!(matches!(
        run.step(RunEvent::BarrierPassed),
        RunAction::Subscribe(topic) if topic == "smoke"
    ));
    assert!(matches!(run.step(RunEvent::JoinedTopic { all_peers: 1 }), RunAction::Nothing));
    assert!(matches!(
        run.step(RunEvent::Swarm(Event::Subscribed)),
        RunAction::SignalAndWait(state) if state == "Subscribed a topic"
    ));
    assert!(matches!(run.step(RunEvent::Swarm(message("a"))), RunAction::Nothing));
    run
}

#[test]
fn smoke_run_succeeds_with_all_messages() {
    let mut run = publishing(true);
    match run.step(RunEvent::BarrierPassed) {
        RunAction::Publish { topic, message } => {
            assert_eq!((topic.as_str(), message.as_str()), ("smoke", "message"));
        }
        other => panic!("unexpected {other:?}"),
    }
    assert!(matches!(run.step(RunEvent::Published), RunAction::Nothing));
    assert_eq!(run.stage, Stage::Receiving);
    assert!(matches!(
        run.step(RunEvent::Swarm(message("b"))),
        RunAction::SignalAndWait(state) if state == "Published a message"
    ));
    assert!(matches!(run.step(RunEvent::BarrierPassed), RunAction::RecordSuccess));
    assert_eq!(run.stage, Stage::Succeeded);
}

#[test]
fn nothing_is_waited_for_that_came_before() {
    let (mut run, _) = SmokeRun::new(2, false);
    run.step(RunEvent::Swarm(Event::Subscribed));
    run.step(RunEvent::BarrierPassed);
    run.step(RunEvent::Collected { addresses: addresses(&["/b"]), own: "/a".to_string() });
    run.step(RunEvent::Swarm(Event::Dialed));
    run.step(RunEvent::BarrierPassed);
    assert!(matches!(
        run.step(RunEvent::JoinedTopic { all_peers: 1 }),
        RunAction::SignalAndWait(state) if state == "Subscribed a topic"
    ));
    run.step(RunEvent::Swarm(message("b")));
    run.step(RunEvent::BarrierPassed);
    assert!(matches!(
        run.step(RunEvent::Published),
        RunAction::SignalAndWait(state) if state == "Published a message"
    ));
}

#[test]
fn repeated_messages_at_a_barrier_end_only_a_strict_run() {
    let mut run = publishing(false);
    assert!(matches!(run.step(RunEvent::Swarm(message("a"))), RunAction::Nothing));
    assert_eq!(run.stage, Stage::Subscribed);
    let mut run = publishing(true);
    assert!(matches!(run.step(RunEvent::Swarm(message("a"))), RunAction::RecordFailure));
    assert_eq!(run.stage, Stage::Failed);
}

#[test]
fn repeated_messages_while_receiving_end_every_run() {
    let mut run = publishing(false);
    run.step(RunEvent::BarrierPassed);
    run.step(RunEvent::Published);
    assert!(matches!(run.step(RunEvent::Swarm(message("a"))), RunAction::RecordFailure));
    assert_eq!(run.stage, Stage::Failed);
}
