use gossipsub_testground::gen_topology::{Draft, Network, Params};
use gossipsub_testground::gen_topology_files::{dotfile, RunParams};
use rand::seq::SliceRandom;
use rand::{Rng, SeedableRng};
use rand_chacha::ChaCha8Rng;
use std::collections::{BTreeMap, BTreeSet};

fn set(values: &[usize]) -> BTreeSet<usize> {
    values.iter().cloned().collect()
}

/// Draws a topology straight from the generator.
fn drawn(
    seed: u64,
    validators: usize,
    with_vals: usize,
    nodes: usize,
    least: usize,
    most: usize,
) -> (BTreeMap<usize, BTreeSet<usize>>, BTreeMap<usize, Vec<usize>>) {
    let mut gen = ChaCha8Rng::seed_from_u64(seed);
    let mut all: Vec<usize> = (0..validators).collect();
    let mut cuts: Vec<usize> = all
        .choose_multiple(&mut gen, with_vals - 1)
        .cloned()
        .collect();
    cuts.push(validators);
    cuts.push(0);
    all.shuffle(&mut gen);
    cuts.sort();
    let assignments = cuts
        .windows(2)
        .enumerate()
        .map(|(node, cut)| (node, set(&all[cut[0]..cut[1]])))
        .collect();
    let wishes: Vec<usize> = (0..nodes).map(|_| gen.gen_range(least..=most)).collect();
    let mut offers: Vec<(usize, usize)> = (0..nodes)
        .flat_map(|i| (i + 1..nodes).map(move |j| (i, j)))
        .collect();
    offers.shuffle(&mut gen);
    let mut counts = vec![0; nodes];
    let mut outbound: BTreeMap<usize, Vec<usize>> = BTreeMap::new();
    while let Some((a, b)) = offers.pop() {
        if counts[a] >= wishes[a] || counts[b] >= wishes[b] {
            continue;
        }
        let from_a_to_b = gen.gen_ratio(3, 5);
        counts[a] += 1;
        counts[b] += 1;
        if from_a_to_b {
            outbound.entry(a).or_default().push(b);
        } else {
            outbound.entry(b).or_default().push(a);
        }
    }
    (assignments, outbound)
}

#[test]
fn generated_network_follows_the_generator() {
    for seed in [0, 1, 42, 987_654_321] {
        let params = Params::new(seed, 50, 10, 5, 3, 6).unwrap();
        let network = Network::generate(params).unwrap();
        let (assignments, outbound) = drawn(seed, 50, 10, 15, 3, 6);
        assert_eq!(network.validator_assignments(), &assignments);
        assert_eq!(network.outbound_peers(), &outbound);
    }
}

#[test]
fn generation_is_deterministic() {
    let one = Network::generate(Params::new(7, 20, 4, 4, 2, 4).unwrap()).unwrap();
    let two = Network::generate(Params::new(7, 20, 4, 4, 2, 4).unwrap()).unwrap();
    assert_eq!(one.validator_assignments(), two.validator_assignments());
    assert_eq!(one.outbound_peers(), two.outbound_peers());
    assert_eq!(one.params().seed(), 7);
}

#[test]
fn networks_can_be_generated_again_from_their_params() {
    for seed in 0..5 {
        let first = Network::generate(Params::new(seed, 30, 5, 3, 2, 4).unwrap()).unwrap();
        let (params, outbound, assignments) = first.destructure();
        let second = Network::generate(params).unwrap();
        assert_eq!(second.outbound_peers(), &outbound);
        assert_eq!(second.validator_assignments(), &assignments);
        assert_eq!(second.params().seed(), seed);
    }
    let fault = || Network::generate(Params::new(1, 4, 2, 1, 0, 0).unwrap()).unwrap_err();
    assert_eq!(fault(), fault());
}

#[test]
fn only_the_first_of_several_groups_can_be_empty() {
    let mut first_empty = 0;
    for seed in 0..40 {
        let draft = Draft::new(&Params::new(seed, 6, 4, 1, 2, 4).unwrap());
        assert_eq!(draft.validator_assignments.len(), 4);
        for (node, validators) in &draft.validator_assignments {
            if validators.is_empty() {
                assert_eq!(*node, 0);
                first_empty += 1;
            }
        }
        let alone = Draft::new(&Params::new(seed, 6, 1, 1, 1, 1).unwrap());
        assert_eq!(alone.validator_assignments[&0].len(), 6);
    }
    assert!(0 < first_empty && first_empty < 40);
    let crowded = Draft::new(&Params::new(3, 2, 5, 0, 1, 4).unwrap());
    let sizes: Vec<usize> = crowded.validator_assignments.values().map(|own| own.len()).collect();
    assert_eq!(sizes, vec![0, 1, 1]);
}

#[test]
fn params_keep_the_numbers() {
    let params = Params::new(9, 50, 10, 5, 3, 6).unwrap();
    assert_eq!(params.seed(), 9);
    assert_eq!(params.total_validators(), 50);
    assert_eq!(params.total_nodes_with_vals(), 10);
    assert_eq!(params.total_nodes(), 15);
    assert_eq!(params.connections_range(), 3..=6);
}

#[test]
fn params_refuse_bad_numbers() {
    assert_eq!(
        Params::new(0, 1, usize::MAX, 1, 0, 1).unwrap_err(),
        "bad number of nodes with validators"
    );
    assert_eq!(Params::new(0, 1, 0, 0, 0, 1).unwrap_err(), "Empty network");
    assert_eq!(
        Params::new(0, 0, 1, 0, 0, 1).unwrap_err(),
        "no validators in the network"
    );
    assert_eq!(
        Params::new(0, 1, 1, 0, 3, 2).unwrap_err(),
        "bad connection range"
    );
}

/// Checks a network of two nodes and three validators.
fn checked(
    assignments: &[(usize, &[usize])],
    outbound: &[(usize, &[usize])],
) -> Result<Network, String> {
    Network::new(
        Params::new(0, 3, 1, 1, 1, 1).unwrap(),
        assignments
            .iter()
            .map(|(node, validators)| (*node, set(validators)))
            .collect(),
        outbound
            .iter()
            .map(|(node, peers)| (*node, peers.to_vec()))
            .collect(),
    )
}

#[test]
fn complete_network_is_accepted() {
    let network = checked(&[(0, &[1]), (1, &[0, 2])], &[(1, &[0])]).unwrap();
    assert_eq!(network.validator_assignments()[&1], set(&[0, 2]));
    let (params, outbound, assignments) = network.destructure();
    assert_eq!(params.total_validators(), 3);
    assert_eq!(outbound, BTreeMap::from([(1, vec![0])]));
    assert_eq!(assignments[&0], set(&[1]));
}

#[test]
fn faulty_networks_are_refused() {
    let links: &[(usize, &[usize])] = &[(0, &[1])];
    assert_eq!(
        checked(&[(0, &[0, 1])], links).unwrap_err(),
        "the number of assigned validators does not match the expected number. Found 2, expected 3"
    );
    assert_eq!(
        checked(&[(0, &[0, 2]), (1, &[2])], links).unwrap_err(),
        "a validator id was assigned more than once"
    );
    assert_eq!(
        checked(&[(0, &[0, 1, 3])], links).unwrap_err(),
        "validator ids do not cover the expected range (wrong max)"
    );
    assert_eq!(
        checked(&[(0, &[0, 1]), (1, &[9])], links).unwrap_err(),
        "validator ids do not cover the expected range (wrong max)"
    );
    assert_eq!(
        checked(&[(0, &[0, 1, 2])], &[]).unwrap_err(),
        "set of dialed peers and expected peers differ: missing [0, 1]"
    );
    assert_eq!(
        checked(&[(0, &[0, 1, 2])], &[(0, &[1, 2])]).unwrap_err(),
        "set of dialed peers and expected peers differ: missing []"
    );
}

#[test]
fn unconnected_node_makes_generation_fail() {
    let params = Params::new(0, 4, 1, 0, 0, 0).unwrap();
    assert_eq!(
        Network::generate(params).unwrap_err(),
        "Network generation failed: set of dialed peers and expected peers differ: missing [0]"
    );
}

#[test]
fn each_validator_goes_to_one_node_and_links_are_sound() {
    for seed in 0..20 {
        let (validators, with_vals, nodes, least, most) = (30, 7, 12, 2, 5);
        let params = Params::new(seed, validators, with_vals, nodes - with_vals, least, most);
        let draft = Draft::new(&params.unwrap());
        let mut seen = BTreeSet::new();
        for (node, own) in &draft.validator_assignments {
            assert!(*node < with_vals);
            for validator in own {
                assert!(*validator < validators && seen.insert(*validator));
            }
        }
        assert_eq!(seen.len(), validators);
        let mut pairs = BTreeSet::new();
        let mut counts = vec![0; nodes];
        for (from, peers) in &draft.outbound_peers {
            for to in peers {
                assert!(from != to);
                assert!(pairs.insert((*from.min(to), *from.max(to))));
                counts[*from] += 1;
                counts[*to] += 1;
            }
        }
        assert!(counts.iter().all(|count| *count <= most));
        assert_eq!(
            draft.within_range,
            counts.iter().all(|count| (least..=most).contains(count))
        );
    }
}

#[test]
fn too_few_nodes_stay_below_the_range() {
    let params = Params::new(3, 4, 2, 0, 3, 3).unwrap();
    let draft = Draft::new(&params);
    assert!(!draft.within_range);
    let network = draft.finish(params).unwrap();
    assert_eq!(network.outbound_peers().values().flatten().count(), 1);
}

#[test]
fn more_nodes_than_validators_leave_empty_groups_out() {
    let params = Params::new(5, 2, 6, 0, 2, 3).unwrap();
    let network = Network::generate(params).unwrap();
    let nodes: Vec<usize> = network.validator_assignments().keys().cloned().collect();
    assert_eq!(nodes, vec![0, 1, 2]);
}

#[test]
fn dotfile_lists_who_dials_whom() {
    let network = Network::new(
        Params::new(0, 1, 1, 2, 1, 2).unwrap(),
        BTreeMap::from([(0, set(&[0]))]),
        BTreeMap::from([(2, vec![1, 0]), (0, vec![1])]),
    )
    .unwrap();
    assert_eq!(
        dotfile(&network),
        "digraph {\n\t0 -> 1;\n\t2 -> 1;\n\t2 -> 0;\n}\n"
    );
}

#[test]
fn run_params_count_nodes_without_validators() {
    let mut run = RunParams {
        seed: 4,
        total_validators: 8,
        total_nodes_with_vals: 3,
        total_nodes: 2,
        min_peers_per_node: 1,
        max_peers_per_node_inc: 4,
        dotfile_name: "a.dot".to_string(),
        config_file_name: "a.json".to_string(),
    };
    let params = run.params().unwrap();
    assert_eq!(params.total_nodes(), 5);
    assert_eq!(params.connections_range(), 1..=4);
    run.total_validators = 0;
    assert_eq!(run.params().unwrap_err(), "no validators in the network");
}
