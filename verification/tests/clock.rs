use gossipsub_testground::clock::{parse_start_time, time_after, FIRST_SECOND, LAST_SECOND};
use gossipsub_testground::eth_consensus::network::Network;
use gossipsub_testground::eth_consensus::{node_run, InstanceInfo};
use gossipsub_testground::influx::Timestamp;
use std::collections::BTreeMap;

fn at(seconds: i64, nanos: u32) -> Timestamp {
    Timestamp { seconds, nanos }
}

fn own() -> InstanceInfo {
    InstanceInfo { peer_id: "me".to_string(), multiaddr: "/ip4/me".to_string() }
}

#[test]
fn start_times_are_read() {
    assert_eq!(parse_start_time("1970-01-01T00:00:00Z"), Some(at(0, 0)));
    assert_eq!(parse_start_time("2022-10-09T12:34:56.789+02:00"), Some(at(1665311696, 789_000_000)));
    assert_eq!(parse_start_time("2016-12-31T23:59:60.5Z"), Some(at(1483228799, 1_500_000_000)));
}

#[test]
fn other_texts_are_no_start_times() {
    for text in ["", "now", "2022-10-09", "2022-10-09T12:34:56", "2022-13-09T12:34:56Z"] {
        assert_eq!(parse_start_time(text), None);
    }
}

#[test]
fn elapsed_time_is_added() {
    assert_eq!(time_after(at(100, 1), 5, 2), Some(at(105, 3)));
    assert_eq!(time_after(at(100, 600_000_000), 5, 600_000_000), Some(at(106, 200_000_000)));
    assert_eq!(time_after(at(-1, 999_999_999), 0, 1), Some(at(0, 0)));
    assert_eq!(time_after(at(7, 0), 0, 0), Some(at(7, 0)));
}

#[test]
fn leap_seconds_go_on_until_they_are_over() {
    let leap = at(1483228799, 1_500_000_000);
    assert_eq!(time_after(leap, 0, 0), Some(leap));
    assert_eq!(time_after(leap, 0, 499_999_999), Some(at(1483228799, 1_999_999_999)));
    assert_eq!(time_after(leap, 0, 500_000_000), Some(at(1483228800, 0)));
    assert_eq!(time_after(leap, 0, 999_999_999), Some(at(1483228800, 499_999_999)));
    assert_eq!(time_after(leap, 1, 0), Some(at(1483228800, 500_000_000)));
    assert_eq!(time_after(at(1483228800, 1_500_000_000), 0, 0), None);
    assert_eq!(time_after(at(1483228799, 2_000_000_000), 0, 0), None);
    assert_eq!(time_after(at(-1, 1_500_000_000), 0, 500_000_000), Some(at(0, 0)));
}

#[test]
fn times_outside_of_dates_are_refused() {
    assert_eq!(FIRST_SECOND, chrono::DateTime::<chrono::Utc>::MIN_UTC.timestamp());
    assert_eq!(LAST_SECOND, chrono::DateTime::<chrono::Utc>::MAX_UTC.timestamp());
    assert_eq!(time_after(at(FIRST_SECOND, 0), 0, 0), Some(at(FIRST_SECOND, 0)));
    assert_eq!(time_after(at(FIRST_SECOND - 1, 0), 1, 0), None);
    assert_eq!(time_after(at(LAST_SECOND, 0), 0, 999_999_999), Some(at(LAST_SECOND, 999_999_999)));
    assert_eq!(time_after(at(LAST_SECOND, 1), 0, 999_999_999), None);
    assert_eq!(time_after(at(LAST_SECOND, 0), 1, 0), None);
    assert_eq!(time_after(at(LAST_SECOND + 1, 0), 0, 0), None);
    assert_eq!(time_after(at(i64::MAX, 0), 0, 0), None);
    assert_eq!(time_after(at(0, 0), u64::MAX, 999_999_999), None);
    let whole = (LAST_SECOND - FIRST_SECOND) as u64;
    assert_eq!(time_after(at(FIRST_SECOND, 0), whole, 0), Some(at(LAST_SECOND, 0)));
    assert_eq!(time_after(at(FIRST_SECOND, 0), whole + 1, 0), None);
}

#[test]
fn waiting_twice_is_waiting_once() {
    let between = time_after(at(10, 700_000_000), 3, 600_000_000).unwrap();
    assert_eq!(between, at(14, 300_000_000));
    assert_eq!(time_after(between, 4, 900_000_000), time_after(at(10, 700_000_000), 8, 500_000_000));
}

#[test]
fn metrics_are_taken_after_the_start() {
    let network = Network { node_id: 4, instance_info: own(), participants: BTreeMap::new() };
    let start = parse_start_time("2022-10-09T12:34:56Z").unwrap();
    let info = network
        .record_metrics_info("run".to_string(), vec![], start, (60, 5))
        .unwrap();
    assert_eq!(info.run_id, "run");
    assert_eq!(info.node_id, 4);
    assert_eq!(info.instance_info.peer_id, "me");
    assert_eq!(info.instance_info.multiaddr, "/ip4/me");
    assert_eq!(info.current, at(start.seconds + 60, 5));
    assert!(info.metrics.is_empty());
    assert!(network
        .record_metrics_info("run".to_string(), vec![], start, (u64::MAX, 0))
        .is_none());

    let network = node_run::Network { node_id: 5, instance_info: own(), participants: BTreeMap::new() };
    let info = network
        .record_metrics_info("run".to_string(), vec![], start, (0, 999_999_999))
        .unwrap();
    assert_eq!(info.node_id, 5);
    assert_eq!(info.current, at(start.seconds, 999_999_999));
}
