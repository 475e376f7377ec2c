use gossipsub_testground::episub;
use gossipsub_testground::eth_consensus::network::run::{
    generator_settings, is_over, metrics_interval, parse_params as parse_eth_params,
    setup_gossipsub,
};
use gossipsub_testground::flood_publishing::{
    is_publisher, parse_flood_publish, participants, peer_id_line, FloodPublish, FloodSettings,
    PeerAddress,
};
use gossipsub_testground::influx::Double;
use gossipsub_testground::instance_params::{
    count_nodes_without_vals, get_param, parse_params, InstanceParams,
};
use gossipsub_testground::smoke::history_length;
use gossipsub_testground::text::{decimal_text, list_text, parse_number, NumberError};

fn params(pairs: &[(&str, &str)]) -> InstanceParams {
    let mut params = InstanceParams::new();
    for (key, text) in pairs {
        let double = text.parse::<f64>().ok().map(|x| Double { bits: x.to_bits() });
        params.insert(key.to_string(), text.to_string(), double);
    }
    params
}

const TOPOLOGY: &[(&str, &str)] = &[
    ("seed", "12"),
    ("no_val_percentage", "25"),
    ("total_validators", "40"),
    ("min_peers_per_node", "2"),
    ("max_peers_per_node_inclusive", "7"),
    ("run", "90"),
    ("episub", "true"),
];

/// The usual parameters with one of them changed or left out.
fn altered(key: &str, value: Option<&str>) -> InstanceParams {
    let mut pairs: Vec<(&str, &str)> = TOPOLOGY
        .iter()
        .cloned()
        .filter(|(name, _)| *name != key)
        .collect();
    if let Some(value) = value {
        pairs.push((key, value));
    }
    params(&pairs)
}

#[test]
fn numbers_read_as_std_reads_them() {
    for text in [
        "", "+", "-", "0", "7", "+7", "-7", "007", "12a", "a12", " 1", "18446744073709551615",
        "18446744073709551616", "99999999999999999999a", "9999999999999999999999", "é1", "1é",
    ] {
        let ours = parse_number(text, u64::MAX).map_err(|e| match e {
            NumberError::Empty => "cannot parse integer from empty string",
            NumberError::InvalidDigit => "invalid digit found in string",
            NumberError::PosOverflow => "number too large to fit in target type",
        });
        match text.parse::<u64>() {
            Ok(number) => assert_eq!(ours, Ok(number)),
            Err(e) => assert_eq!(ours.unwrap_err(), e.to_string()),
        }
    }
    assert_eq!(parse_number("256", 255), Err(NumberError::PosOverflow));
    assert_eq!(parse_number("255", 255), Ok(255));
}

#[test]
fn numerals_read_back() {
    for n in [0, 9, 10, 1_234_567_890, u64::MAX] {
        assert_eq!(decimal_text(n as u128), n.to_string());
        assert_eq!(parse_number(&decimal_text(n as u128), u64::MAX), Ok(n));
    }
    assert_eq!(decimal_text(u128::MAX), u128::MAX.to_string());
    assert_eq!(list_text(&vec![]), "[]");
    assert_eq!(list_text(&vec![3, 14, 1]), "[3, 14, 1]");
}

#[test]
fn typed_parameters_are_read() {
    let params = params(&[
        ("number", "42"),
        ("flag", "false"),
        ("text", "rapid"),
        ("double", "-0.5"),
        ("bad", "x1"),
    ]);
    assert_eq!(get_param::<u64>("number", &params), Ok(42));
    assert_eq!(get_param::<usize>("number", &params), Ok(42));
    assert_eq!(get_param::<bool>("flag", &params), Ok(false));
    assert_eq!(get_param::<String>("text", &params), Ok("rapid".to_string()));
    assert_eq!(
        get_param::<Double>("double", &params),
        Ok(Double { bits: (-0.5f64).to_bits() })
    );
    assert_eq!(
        get_param::<u64>("missing", &params),
        Err("missing is not specified.".to_string())
    );
    for error in [
        get_param::<u64>("bad", &params).unwrap_err(),
        get_param::<usize>("bad", &params).unwrap_err(),
        get_param::<bool>("bad", &params).map(|_| 0).unwrap_err() as String,
        get_param::<Double>("bad", &params).map(|_| 0).unwrap_err(),
    ] {
        assert_eq!(error, "Failed to parse instance_param. key: bad");
    }
}

#[test]
fn share_of_nodes_without_validators_is_rounded_down() {
    assert_eq!(count_nodes_without_vals(10, 25), 2);
    assert_eq!(count_nodes_without_vals(10, 0), 0);
    assert_eq!(count_nodes_without_vals(10, 100), 10);
    assert_eq!(count_nodes_without_vals(10, 250), 10);
    assert_eq!(count_nodes_without_vals(usize::MAX, 100), usize::MAX);
}

#[test]
fn topology_parameters_are_read() {
    let (run, topology) = parse_params(10, &params(TOPOLOGY)).unwrap();
    assert_eq!(run, 90);
    assert_eq!(topology.seed(), 12);
    assert_eq!(topology.total_validators(), 40);
    assert_eq!(topology.total_nodes(), 10);
    assert_eq!(topology.total_nodes_with_vals(), 8);
    assert_eq!(topology.connections_range(), 2..=7);
}

#[test]
fn missing_topology_parameters_are_reported() {
    for (key, report) in [
        ("seed", "seed is not specified."),
        ("no_val_percentage", "`no_val_percentage` is not specified"),
        ("total_validators", "`total_validators` not specified"),
        ("min_peers_per_node", "`min_peers_per_node` not specified"),
        (
            "max_peers_per_node_inclusive",
            "`max_peers_per_node_inclusive` not specified",
        ),
        ("run", "run is not specified."),
    ] {
        assert_eq!(parse_params(10, &altered(key, None)).unwrap_err(), report);
        assert_eq!(parse_eth_params(10, &altered(key, None)).unwrap_err(), report);
    }
    assert_eq!(
        parse_eth_params(10, &altered("episub", None)).unwrap_err(),
        "episub is not specified."
    );
}

#[test]
fn unreadable_topology_parameters_are_reported() {
    assert_eq!(
        parse_params(10, &altered("seed", Some("x"))).unwrap_err(),
        "invalid digit found in string"
    );
    assert_eq!(
        parse_params(10, &altered("run", Some(""))).unwrap_err(),
        "cannot parse integer from empty string"
    );
    assert_eq!(
        parse_params(10, &altered("total_validators", Some("99999999999999999999"))).unwrap_err(),
        "Error reading total_validators number too large to fit in target type"
    );
    assert_eq!(
        parse_params(10, &altered("total_validators", Some("0"))).unwrap_err(),
        "no validators in the network"
    );
    assert_eq!(
        parse_params(0, &params(TOPOLOGY)).unwrap_err(),
        "Empty network"
    );
    assert_eq!(
        parse_eth_params(10, &altered("episub", Some("yes"))).unwrap_err(),
        "provided string was not `true` or `false`"
    );
}

#[test]
fn consensus_run_is_set_up() {
    let settings = parse_eth_params(10, &params(TOPOLOGY)).unwrap();
    assert_eq!(settings.run, 90);
    assert!(settings.episub);
    let generator = generator_settings(&settings.params);
    assert_eq!(generator.total_validators, 40);
    assert_eq!(generator.slot_duration, 12);
    assert_eq!(generator.slots_per_epoch, 2);
    assert_eq!(generator.target_aggregators, 14);
    assert_eq!(metrics_interval(), 4);
    assert!(!is_over(60, 0, 60) && is_over(60, 1, 60) && is_over(61, 0, 60));
    assert!(!is_over(59, 999_999_999, 60));
    assert!(!is_over(u64::MAX, 0, u64::MAX));
    assert_eq!(setup_gossipsub(true).min_choke_message_count, Some(2));
    let gossipsub = setup_gossipsub(false);
    assert_eq!(gossipsub.min_choke_message_count, None);
    assert_eq!(gossipsub.max_transmit_size, 10 * 1_048_576);
    assert_eq!(gossipsub.duplicate_cache_time, 25);
}

#[test]
fn flood_settings_are_read_in_order() {
    let full = &[
        ("warm_up", "10"),
        ("run", "60"),
        ("publish_interval", "2"),
        ("bandwidth", "20"),
        ("flood_publish", "heartbeat"),
    ];
    let settings = FloodSettings::new(&params(full)).unwrap();
    assert_eq!(
        (settings.warm_up, settings.run, settings.publish_interval),
        (10, 60, 2)
    );
    assert_eq!(settings.link_bandwidth(), 20_971_520);
    for missing in 0..4 {
        let rest: Vec<(&str, &str)> = full[missing + 1..].to_vec();
        let mut pairs: Vec<(&str, &str)> = full[..missing].to_vec();
        pairs.extend(rest);
        assert_eq!(
            FloodSettings::new(&params(&pairs)).unwrap_err(),
            format!("{} is not specified.", full[missing].0)
        );
    }
    assert_eq!(
        FloodSettings::new(&params(&[("warm_up", "-1")])).unwrap_err(),
        "Failed to parse instance_param. key: warm_up"
    );
}

#[test]
fn flood_kinds_are_read() {
    assert_eq!(
        parse_flood_publish(&params(&[("flood_publish", "heartbeat")])),
        Ok(FloodPublish::Heartbeat(0))
    );
    assert_eq!(
        parse_flood_publish(&params(&[("flood_publish", "rapid")])),
        Ok(FloodPublish::Rapid)
    );
    assert_eq!(
        parse_flood_publish(&params(&[("flood_publish", "slow")])),
        Err("Unknown flood publish type".to_string())
    );
    assert_eq!(
        parse_flood_publish(&params(&[])),
        Err("flood_publish is not specified.".to_string())
    );
}

#[test]
fn flood_participants_leave_out_the_instance_itself() {
    let infos = ["a", "b", "a", "c"]
        .iter()
        .map(|peer_id| PeerAddress {
            peer_id: peer_id.to_string(),
            multiaddr: format!("/ip4/{peer_id}"),
        })
        .collect();
    let others: Vec<String> = participants(infos, "a")
        .into_iter()
        .map(|info| info.multiaddr)
        .collect();
    assert_eq!(others, vec!["/ip4/b", "/ip4/c"]);
    assert!(is_publisher(1) && !is_publisher(0) && !is_publisher(2));
    assert_eq!(
        peer_id_line("12D3", true),
        r#"[flood_publishing_test]{"event":"peer_id","peer_id":"12D3","is_publisher":true}"#
    );
    assert_eq!(
        peer_id_line("x", false),
        r#"[flood_publishing_test]{"event":"peer_id","peer_id":"x","is_publisher":false}"#
    );
}

#[test]
fn history_length_is_read() {
    assert_eq!(
        history_length(&params(&[("gossipsub_history_length", "5")])),
        Ok(5)
    );
    assert_eq!(
        history_length(&params(&[])),
        Err("gossipsub_history_length is not specified".to_string())
    );
    assert_eq!(
        history_length(&params(&[("gossipsub_history_length", "five")])),
        Err("invalid digit found in string".to_string())
    );
}

#[test]
fn episub_times_are_read() {
    let test_params =
        episub::node_run::TestParams::new(&params(&[("warmup", "3"), ("run", "8")])).unwrap();
    assert_eq!((test_params.warmup, test_params.run), (3, 8));
    assert_eq!(
        episub::node_run::TestParams::new(&params(&[("run", "8")])).unwrap_err(),
        "warmup is not specified."
    );
    assert_eq!(
        episub::node_run::TestParams::new(&params(&[("warmup", "3")])).unwrap_err(),
        "run is not specified."
    );
}
