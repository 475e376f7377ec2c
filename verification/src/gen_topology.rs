//! Random network topologies: which node runs which validators, and which node dials which.

pub mod draft;
pub mod laws;
pub mod wiring;

use self::draft::{
    assign_validators, complete_assignment, drawn_assignments, filled_groups,
    lemma_complete_assignment,
};
use self::wiring::{
    dials, drawn_links, drawn_wishes, saturated, sound_links, wire, wishes_kept, within_range,
};
use crate::ordered::{increasing, lemma_to_set_push, sorted_items, sorted_keys};
use crate::rng::SeededRng;
use crate::text::{decimal, decimal_text, list_text, listed};
use std::collections::{BTreeMap, BTreeSet};
use std::ops::RangeInclusive;
use vstd::prelude::*;

verus! {

/// A node of the network.
pub type NodeId = usize;

/// A validator.
pub type ValId = usize;

/// What a network is generated from.
#[derive(Debug)]
pub struct Params {
    seed: u64,
    total_validators: usize,
    total_nodes_with_vals: usize,
    total_nodes: usize,
    min_peers_per_node: usize,
    max_peers_per_node: usize,
}

/// The numbers that [`Params`] stands for.
pub struct ParamsView {
    pub seed: u64,
    pub total_validators: usize,
    pub total_nodes_with_vals: usize,
    pub total_nodes: usize,
    pub min_peers_per_node: usize,
    pub max_peers_per_node: usize,
}

impl ParamsView {
    /// What holds of every value of [`Params`].
    pub open spec fn valid(self) -> bool {
        &&& 0 < self.total_validators
        &&& 0 < self.total_nodes
        &&& self.total_nodes_with_vals <= self.total_nodes
        &&& self.min_peers_per_node <= self.max_peers_per_node
    }
}

impl View for Params {
    type V = ParamsView;

    closed spec fn view(&self) -> ParamsView {
        ParamsView {
            seed: self.seed,
            total_validators: self.total_validators,
            total_nodes_with_vals: self.total_nodes_with_vals,
            total_nodes: self.total_nodes,
            min_peers_per_node: self.min_peers_per_node,
            max_peers_per_node: self.max_peers_per_node,
        }
    }
}

/// What is wrong with the numbers of a network, if anything.
pub open spec fn params_fault(
    total_validators: usize,
    total_nodes_with_vals: usize,
    total_nodes_without_vals: usize,
    min_peers_per_node: usize,
    max_peers_per_node_inclusive: usize,
) -> Option<Seq<char>> {
    if total_nodes_with_vals + total_nodes_without_vals > usize::MAX {
        Some("bad number of nodes with validators"@)
    } else if total_nodes_with_vals + total_nodes_without_vals == 0 {
        Some("Empty network"@)
    } else if total_validators == 0 {
        Some("no validators in the network"@)
    } else if min_peers_per_node > max_peers_per_node_inclusive {
        Some("bad connection range"@)
    } else {
        None
    }
}

impl Params {
    #[verifier::type_invariant]
    spec fn inv(self) -> bool {
        self@.valid()
    }

    /// Checks the numbers of a network and takes them over.
    pub fn new(
        seed: u64,
        total_validators: usize,
        total_nodes_with_vals: usize,
        total_nodes_without_vals: usize,
        min_peers_per_node: usize,
        max_peers_per_node_inclusive: usize,
    ) -> (params: Result<Self, &'static str>)
        ensures
            match params_fault(
                total_validators,
                total_nodes_with_vals,
                total_nodes_without_vals,
                min_peers_per_node,
                max_peers_per_node_inclusive,
            ) {
                None => params is Ok && params->Ok_0@ == (ParamsView {
                    seed,
                    total_validators,
                    total_nodes_with_vals,
                    total_nodes: (total_nodes_with_vals + total_nodes_without_vals) as usize,
                    min_peers_per_node,
                    max_peers_per_node: max_peers_per_node_inclusive,
                }) && params->Ok_0@.valid(),
                Some(fault) => params is Err && params->Err_0@ == fault,
            },
    {
        let total_nodes: usize = match total_nodes_with_vals.checked_add(total_nodes_without_vals) {
            Some(total_nodes) => total_nodes,
            None => {
                return Err("bad number of nodes with validators");
            },
        };
        if total_nodes == 0 {
            return Err("Empty network");
        }
        if total_validators == 0 {
            return Err("no validators in the network");
        }
        if min_peers_per_node > max_peers_per_node_inclusive {
            return Err("bad connection range");
        }
        Ok(
            Params {
                seed,
                total_validators,
                total_nodes_with_vals,
                total_nodes,
                min_peers_per_node,
                max_peers_per_node: max_peers_per_node_inclusive,
            },
        )
    }

    /// The seed of the random draws.
    pub fn seed(&self) -> (seed: u64)
        ensures
            seed == self@.seed,
    {
        self.seed
    }

    /// The number of validators in the network.
    pub fn total_validators(&self) -> (total: usize)
        ensures
            total == self@.total_validators,
            self@.valid(),
    {
        proof {
            use_type_invariant(self);
        }
        self.total_validators
    }

    /// The number of nodes that run validators.
    pub fn total_nodes_with_vals(&self) -> (total: usize)
        ensures
            total == self@.total_nodes_with_vals,
            self@.valid(),
    {
        proof {
            use_type_invariant(self);
        }
        self.total_nodes_with_vals
    }

    /// The number of nodes in the network.
    pub fn total_nodes(&self) -> (total: usize)
        ensures
            total == self@.total_nodes,
            self@.valid(),
    {
        proof {
            use_type_invariant(self);
        }
        self.total_nodes
    }

    /// How many connections a node should have.
    pub fn connections_range(&self) -> (range: RangeInclusive<usize>)
        ensures
            range@.start == self@.min_peers_per_node,
            range@.end == self@.max_peers_per_node,
            !range@.exhausted,
            self@.valid(),
    {
        proof {
            use_type_invariant(self);
        }
        RangeInclusive::new(self.min_peers_per_node, self.max_peers_per_node)
    }

    fn min_peers(&self) -> (least: usize)
        ensures
            least == self@.min_peers_per_node,
    {
        self.min_peers_per_node
    }

    fn max_peers(&self) -> (most: usize)
        ensures
            most == self@.max_peers_per_node,
    {
        self.max_peers_per_node
    }
}

/// The validators of each node.
pub open spec fn assignments_of(map: Map<NodeId, BTreeSet<ValId>>) -> Map<NodeId, Set<ValId>> {
    map.map_values(|validators: BTreeSet<ValId>| validators@)
}

/// The nodes that each node dials, in dialing order.
pub open spec fn dials_of(map: Map<NodeId, Vec<NodeId>>) -> Map<NodeId, Seq<NodeId>> {
    map.map_values(|peers: Vec<NodeId>| peers@)
}

/// Every pair of a node and a validator that it runs.
pub open spec fn assigned_pairs(assigned: Map<NodeId, Set<ValId>>) -> Set<(NodeId, ValId)> {
    Set::new(
        |pair: (NodeId, ValId)| assigned.contains_key(pair.0) && assigned[pair.0].contains(pair.1),
    )
}

/// Every validator that some node runs.
pub open spec fn assigned_validators(assigned: Map<NodeId, Set<ValId>>) -> Set<ValId> {
    Set::new(
        |validator: ValId|
            exists|node: NodeId|
                #[trigger] assigned.contains_key(node) && assigned[node].contains(validator),
    )
}

/// Every node that dials or is dialed.
pub open spec fn connected_nodes(dialed: Map<NodeId, Seq<NodeId>>) -> Set<NodeId> {
    Set::new(
        |node: NodeId|
            dialed.contains_key(node) || exists|from: NodeId|
                #[trigger] dialed.contains_key(from) && dialed[from].contains(node),
    )
}

/// The first `total` numbers.
pub open spec fn ids(total: nat) -> Seq<usize> {
    Seq::new(total, |i: int| i as usize)
}

/// The nodes that should be in the network but neither dial nor are dialed, ascending.
pub open spec fn missing_nodes(total_nodes: nat, connected: Set<NodeId>) -> Seq<NodeId> {
    ids(total_nodes).filter(|node: NodeId| !connected.contains(node))
}

/// What is wrong with a network, if anything.
pub open spec fn network_fault(
    params: ParamsView,
    assigned: Map<NodeId, Set<ValId>>,
    dialed: Map<NodeId, Seq<NodeId>>,
) -> Option<Seq<char>> {
    let total = assigned_pairs(assigned).len();
    let validators = assigned_validators(assigned);
    let connected = connected_nodes(dialed);
    if total != params.total_validators {
        Some(
            "the number of assigned validators does not match the expected number. Found "@
                + decimal(total) + ", expected "@ + decimal(params.total_validators as nat),
        )
    } else if validators.len() != total {
        Some("a validator id was assigned more than once"@)
    } else if !validators.contains((params.total_validators - 1) as usize) || exists|v: ValId|
        #[trigger] validators.contains(v) && v >= params.total_validators {
        Some("validator ids do not cover the expected range (wrong max)"@)
    } else if !validators.contains(0) {
        Some("validator ids do not cover the expected range (wrong min)"@)
    } else if connected != ids(params.total_nodes as nat).to_set() {
        Some(
            "set of dialed peers and expected peers differ: missing "@ + listed(
                missing_nodes(params.total_nodes as nat, connected),
            ),
        )
    } else {
        None
    }
}

/// A checked network.
#[derive(Debug)]
pub struct Network {
    params: Params,
    validator_assignments: BTreeMap<NodeId, BTreeSet<ValId>>,
    outbound_peers: BTreeMap<NodeId, Vec<NodeId>>,
}

/// What a [`Network`] stands for.
pub struct NetworkView {
    /// What the network was generated from. Kept so that it can be generated again.
    pub params: ParamsView,
    /// The validators that each node runs.
    pub validator_assignments: Map<NodeId, Set<ValId>>,
    /// The nodes that each node dials.
    pub outbound_peers: Map<NodeId, Seq<NodeId>>,
}

impl NetworkView {
    /// What holds of every [`Network`].
    pub open spec fn checked(self) -> bool {
        &&& assigned_pairs(self.validator_assignments).finite()
        &&& network_fault(self.params, self.validator_assignments, self.outbound_peers) is None
    }
}

/// In a checked network each validator is run by exactly one node, and the nodes that dial or are
/// dialed are exactly the nodes of the network.
pub proof fn checked_network_is_complete(network: NetworkView)
    requires
        network.params.valid(),
        network.checked(),
    ensures
        forall|validator: ValId|
            #[trigger] assigned_validators(network.validator_assignments).contains(validator)
                <==> validator < network.params.total_validators,
        forall|a: (NodeId, ValId), b: (NodeId, ValId)|
            #[trigger] assigned_pairs(network.validator_assignments).contains(a)
                && #[trigger] assigned_pairs(network.validator_assignments).contains(b) && a.1
                == b.1 ==> a == b,
        forall|node: NodeId|
            #[trigger] connected_nodes(network.outbound_peers).contains(node) <==> node
                < network.params.total_nodes,
{
    let total = network.params.total_validators;
    let pairs = assigned_pairs(network.validator_assignments);
    let validators = assigned_validators(network.validator_assignments);
    let validator_of = |pair: (NodeId, ValId)| pair.1;
    assert forall|v: ValId| validators.contains(v) <==> #[trigger] pairs.map(
        validator_of,
    ).contains(v) by {
        if validators.contains(v) {
            let node = choose|node: NodeId| #[trigger]
                network.validator_assignments.contains_key(node)
                    && network.validator_assignments[node].contains(v);
            assert(pairs.contains((node, v)));
            assert(validator_of((node, v)) == v);
        }
    }
    assert(pairs.map(validator_of) =~= validators);
    pairs.lemma_map_finite(validator_of);
    lemma_ids_set(total);
    assert(validators.subset_of(ids(total as nat).to_set()));
    vstd::set_lib::lemma_subset_equality(validators, ids(total as nat).to_set());
    assert forall|a: (NodeId, ValId), b: (NodeId, ValId)|
        #[trigger] pairs.contains(a) && #[trigger] pairs.contains(b) && a.1 == b.1 implies a
        == b by {
        if a != b {
            let rest = pairs.remove(a);
            assert forall|v: ValId| validators.contains(v) <==> #[trigger] rest.map(
                validator_of,
            ).contains(v) by {
                if validators.contains(v) {
                    let pair = choose|pair: (NodeId, ValId)|
                        pairs.contains(pair) && validator_of(pair) == v;
                    if pair == a {
                        assert(rest.contains(b) && validator_of(b) == v);
                    } else {
                        assert(rest.contains(pair));
                    }
                }
                if rest.map(validator_of).contains(v) {
                    assert(pairs.map(validator_of).contains(v));
                }
            }
            assert(rest.map(validator_of) =~= validators);
            vstd::set_lib::lemma_map_size_bound(rest, validators, validator_of);
        }
    }
    lemma_ids_set(network.params.total_nodes);
}

impl View for Network {
    type V = NetworkView;

    closed spec fn view(&self) -> NetworkView {
        NetworkView {
            params: self.params@,
            validator_assignments: assignments_of(self.validator_assignments@),
            outbound_peers: dials_of(self.outbound_peers@),
        }
    }
}

/// The pairs of a node out of `nodes` and a validator that it runs.
spec fn pairs_within(assigned: Map<NodeId, Set<ValId>>, nodes: Set<NodeId>) -> Set<
    (NodeId, ValId),
> {
    assigned_pairs(assigned.restrict(nodes))
}

proof fn lemma_pairs_insert(assigned: Map<NodeId, Set<ValId>>, nodes: Set<NodeId>, node: NodeId)
    requires
        pairs_within(assigned, nodes).finite(),
        assigned.contains_key(node),
        assigned[node].finite(),
        !nodes.contains(node),
    ensures
        pairs_within(assigned, nodes.insert(node)).finite(),
        pairs_within(assigned, nodes.insert(node)).len() == pairs_within(assigned, nodes).len()
            + assigned[node].len(),
{
    let f = |validator: ValId| (node, validator);
    let own = assigned[node].map(f);
    assert(vstd::relations::injective_on(f, assigned[node]));
    vstd::set_lib::lemma_map_size(assigned[node], own, f);
    let before = pairs_within(assigned, nodes);
    let after = pairs_within(assigned, nodes.insert(node));
    assert forall|pair: (NodeId, ValId)| after.contains(pair) implies (before + own).contains(
        pair,
    ) by {
        if pair.0 == node {
            assert(f(pair.1) == pair);
        }
    }
    assert(after =~= before + own);
    assert(before.disjoint(own));
    vstd::set_lib::lemma_set_disjoint_lens(before, own);
}

/// How many assignments there are, counting a validator once for each node that runs it.
fn count_assigned(assignments: &BTreeMap<NodeId, BTreeSet<ValId>>) -> (total: u128)
    ensures
        total == assigned_pairs(assignments_of(assignments@)).len(),
        assigned_pairs(assignments_of(assignments@)).finite(),
{
    let ghost assigned = assignments_of(assignments@);
    let nodes: Vec<usize> = sorted_keys(assignments);
    let mut total: u128 = 0;
    let mut i: usize = 0;
    proof {
        assert(nodes@.take(0).to_set() =~= Set::empty());
        assert(pairs_within(assigned, nodes@.take(0).to_set()) =~= Set::empty());
    }
    while i < nodes.len()
        invariant
            assigned == assignments_of(assignments@),
            nodes@.to_set() == assignments@.dom(),
            increasing(nodes@),
            i <= nodes@.len(),
            total <= i * (usize::MAX as nat),
            pairs_within(assigned, nodes@.take(i as int).to_set()).finite(),
            total == pairs_within(assigned, nodes@.take(i as int).to_set()).len(),
        decreases nodes@.len() - i,
    {
        let node: usize = nodes[i];
        proof {
            assert(nodes@.to_set().contains(node));
        }
        let validators: &BTreeSet<ValId> = assignments.get(&node).unwrap();
        let own: usize = sorted_items(validators).len();
        proof {
            let seen = nodes@.take(i as int).to_set();
            assert(!seen.contains(node));
            lemma_pairs_insert(assigned, seen, node);
            assert(nodes@.take(i + 1) =~= nodes@.take(i as int).push(node));
            lemma_to_set_push(nodes@.take(i as int), node);
            assert(i * (usize::MAX as nat) + own <= (i + 1) * (usize::MAX as nat))
                by (nonlinear_arith)
                requires
                    own <= usize::MAX,
            ;
            assert((i + 1) * (usize::MAX as nat) <= u128::MAX) by (nonlinear_arith)
                requires
                    i + 1 <= usize::MAX,
                    usize::MAX <= u64::MAX,
            ;
        }
        total = total + own as u128;
        i = i + 1;
    }
    proof {
        assert(nodes@.take(i as int) =~= nodes@);
        assert(assigned.restrict(nodes@.to_set()) =~= assigned);
    }
    total
}

/// Every validator that some node runs.
fn collect_validators(assignments: &BTreeMap<NodeId, BTreeSet<ValId>>) -> (validators: BTreeSet<
    ValId,
>)
    ensures
        validators@ == assigned_validators(assignments_of(assignments@)),
{
    let ghost assigned = assignments_of(assignments@);
    let nodes: Vec<usize> = sorted_keys(assignments);
    let mut validators: BTreeSet<ValId> = BTreeSet::new();
    let mut i: usize = 0;
    while i < nodes.len()
        invariant
            assigned == assignments_of(assignments@),
            nodes@.to_set() == assignments@.dom(),
            i <= nodes@.len(),
            forall|v: ValId| #[trigger]
                validators@.contains(v) <==> exists|k: int|
                    0 <= k < i && (#[trigger] assigned[nodes@[k]]).contains(v),
        decreases nodes@.len() - i,
    {
        let node: usize = nodes[i];
        proof {
            assert(nodes@.to_set().contains(node));
        }
        let own: Vec<ValId> = sorted_items(assignments.get(&node).unwrap());
        let ghost before = validators@;
        let mut j: usize = 0;
        while j < own.len()
            invariant
                j <= own@.len(),
                forall|v: ValId| #[trigger]
                    validators@.contains(v) <==> before.contains(v) || exists|k: int|
                        0 <= k < j && #[trigger] own@[k] == v,
            decreases own@.len() - j,
        {
            validators.insert(own[j]);
            j = j + 1;
        }
        proof {
            assert forall|v: ValId| #[trigger] validators@.contains(v) implies exists|k: int|
                0 <= k < i + 1 && (#[trigger] assigned[nodes@[k]]).contains(v) by {
                if before.contains(v) {
                } else {
                    let k = choose|k: int| 0 <= k < own@.len() && #[trigger] own@[k] == v;
                    assert(own@.to_set().contains(own@[k]));
                    assert(assigned[nodes@[i as int]].contains(v));
                }
            }
            assert forall|v: ValId|
                (exists|k: int| 0 <= k < i + 1 && (#[trigger] assigned[nodes@[k]]).contains(
                    v,
                )) implies #[trigger] validators@.contains(v) by {
                let k = choose|k: int|
                    0 <= k < i + 1 && (#[trigger] assigned[nodes@[k]]).contains(v);
                if k == i {
                    assert(own@.to_set().contains(v));
                    let m = choose|m: int| 0 <= m < own@.len() && own@[m] == v;
                    assert(own@[m] == v);
                }
            }
        }
        i = i + 1;
    }
    proof {
        assert forall|v: ValId| assigned_validators(assigned).contains(v) implies #[trigger]
            validators@.contains(v) by {
            let node = choose|node: NodeId| #[trigger]
                assigned.contains_key(node) && assigned[node].contains(v);
            assert(nodes@.to_set().contains(node));
            let k = choose|k: int| 0 <= k < nodes@.len() && nodes@[k] == node;
            assert(assigned[nodes@[k]].contains(v));
        }
        assert forall|v: ValId| #[trigger] validators@.contains(v) implies assigned_validators(
            assigned,
        ).contains(v) by {
            let k = choose|k: int| 0 <= k < i && (#[trigger] assigned[nodes@[k]]).contains(v);
            assert(nodes@.to_set().contains(nodes@[k]));
            assert(assigned.contains_key(nodes@[k]));
        }
        assert(validators@ =~= assigned_validators(assigned));
    }
    validators
}

/// Whether `p` is `node` or a node that it dials.
spec fn touches(dialed: Map<NodeId, Seq<NodeId>>, node: NodeId, p: NodeId) -> bool {
    node == p || dialed[node].contains(p)
}

/// Every node that dials or is dialed.
fn collect_connected(outbound: &BTreeMap<NodeId, Vec<NodeId>>) -> (connected: BTreeSet<NodeId>)
    ensures
        connected@ == connected_nodes(dials_of(outbound@)),
{
    let ghost dialed = dials_of(outbound@);
    let nodes: Vec<usize> = sorted_keys(outbound);
    let mut connected: BTreeSet<NodeId> = BTreeSet::new();
    let mut i: usize = 0;
    while i < nodes.len()
        invariant
            dialed == dials_of(outbound@),
            nodes@.to_set() == outbound@.dom(),
            i <= nodes@.len(),
            forall|p: NodeId| #[trigger]
                connected@.contains(p) <==> exists|k: int|
                    0 <= k < i && #[trigger] touches(dialed, nodes@[k], p),
        decreases nodes@.len() - i,
    {
        let node: usize = nodes[i];
        proof {
            assert(nodes@.to_set().contains(node));
        }
        let peers: &Vec<NodeId> = outbound.get(&node).unwrap();
        let ghost before = connected@;
        let mut j: usize = 0;
        while j < peers.len()
            invariant
                j <= peers@.len(),
                forall|p: NodeId| #[trigger]
                    connected@.contains(p) <==> before.contains(p) || exists|k: int|
                        0 <= k < j && #[trigger] peers@[k] == p,
            decreases peers@.len() - j,
        {
            connected.insert(peers[j]);
            j = j + 1;
        }
        connected.insert(node);
        proof {
            assert(dialed[node] == peers@);
            assert forall|p: NodeId| #[trigger] connected@.contains(p) implies exists|k: int|
                0 <= k < i + 1 && #[trigger] touches(dialed, nodes@[k], p) by {
                if !before.contains(p) {
                    assert(touches(dialed, nodes@[i as int], p));
                }
            }
            assert forall|p: NodeId|
                (exists|k: int|
                    0 <= k < i + 1 && #[trigger] touches(
                        dialed,
                        nodes@[k],
                        p,
                    )) implies #[trigger] connected@.contains(p) by {
                let k = choose|k: int| 0 <= k < i + 1 && #[trigger] touches(dialed, nodes@[k], p);
                if k == i && p != node {
                    let m = choose|m: int| 0 <= m < peers@.len() && peers@[m] == p;
                    assert(peers@[m] == p);
                }
            }
        }
        i = i + 1;
    }
    proof {
        assert forall|p: NodeId| connected_nodes(dialed).contains(p) implies #[trigger]
            connected@.contains(p) by {
            let node = if dialed.contains_key(p) {
                p
            } else {
                choose|node: NodeId| #[trigger]
                    dialed.contains_key(node) && dialed[node].contains(p)
            };
            assert(nodes@.to_set().contains(node));
            let k = choose|k: int| 0 <= k < nodes@.len() && nodes@[k] == node;
            assert(touches(dialed, nodes@[k], p));
        }
        assert forall|p: NodeId| #[trigger] connected@.contains(p) implies connected_nodes(
            dialed,
        ).contains(p) by {
            let k = choose|k: int| 0 <= k < i && #[trigger] touches(dialed, nodes@[k], p);
            assert(nodes@.to_set().contains(nodes@[k]));
            assert(dialed.contains_key(nodes@[k]));
        }
        assert(connected@ =~= connected_nodes(dialed));
    }
    connected
}

/// The nodes below `total_nodes` that are not in `connected`, ascending.
fn collect_missing(total_nodes: usize, connected: &BTreeSet<NodeId>) -> (missing: Vec<NodeId>)
    ensures
        missing@ == missing_nodes(total_nodes as nat, connected@),
        missing@.len() == 0 <==> ids(total_nodes as nat).to_set().subset_of(connected@),
{
    let mut missing: Vec<NodeId> = Vec::new();
    let mut node: usize = 0;
    proof {
        reveal(Seq::filter);
        assert(missing@ =~= missing_nodes(0, connected@));
    }
    while node < total_nodes
        invariant
            node <= total_nodes,
            missing@ == missing_nodes(node as nat, connected@),
            missing@.len() == 0 <==> forall|p: NodeId| p < node ==> connected@.contains(p),
        decreases total_nodes - node,
    {
        proof {
            reveal(Seq::filter);
            assert(ids((node + 1) as nat).drop_last() =~= ids(node as nat));
        }
        if !connected.contains(&node) {
            missing.push(node);
        }
        node = node + 1;
    }
    proof {
        lemma_ids_set(total_nodes);
    }
    missing
}

/// The first `total` numbers are those below `total`.
pub proof fn lemma_ids_set(total: usize)
    ensures
        forall|x: usize| #[trigger] ids(total as nat).to_set().contains(x) <==> x < total,
        ids(total as nat).to_set().finite(),
        ids(total as nat).to_set().len() == total,
        ids(total as nat).no_duplicates(),
{
    let all = ids(total as nat);
    assert forall|x: usize| x < total implies #[trigger] all.to_set().contains(x) by {
        assert(all[x as int] == x);
    }
    all.unique_seq_to_set();
    vstd::seq_lib::seq_to_set_is_finite(all);
}

impl Network {
    #[verifier::type_invariant]
    spec fn inv(self) -> bool {
        self@.checked()
    }

    /// Checks a network: every validator is run by exactly one node, and the nodes that dial or
    /// are dialed are exactly the nodes of the network. Missing nodes are reported ascending.
    pub fn new(
        params: Params,
        validator_assignments: BTreeMap<NodeId, BTreeSet<ValId>>,
        outbound_peers: BTreeMap<NodeId, Vec<NodeId>>,
    ) -> (network: Result<Self, String>)
        ensures
            match network_fault(
                params@,
                assignments_of(validator_assignments@),
                dials_of(outbound_peers@),
            ) {
                None => network is Ok && network->Ok_0@ == (NetworkView {
                    params: params@,
                    validator_assignments: assignments_of(validator_assignments@),
                    outbound_peers: dials_of(outbound_peers@),
                }),
                Some(fault) => network is Err && network->Err_0@ == fault,
            },
    {
        proof {
            use_type_invariant(&params);
        }
        let total: u128 = count_assigned(&validator_assignments);
        if total != params.total_validators as u128 {
            let mut fault: String =
                "the number of assigned validators does not match the expected number. Found ".to_owned();
            fault.append(decimal_text(total).as_str());
            fault.append(", expected ");
            fault.append(decimal_text(params.total_validators as u128).as_str());
            return Err(fault);
        }
        let validators: Vec<ValId> = sorted_items(&collect_validators(&validator_assignments));
        let ghost ids_seen = assigned_validators(assignments_of(validator_assignments@));
        assert(validators@.to_set() == ids_seen);
        if validators.len() as u128 != total {
            return Err("a validator id was assigned more than once".to_owned());
        }
        let last: usize = validators.len() - 1;
        proof {
            assert(forall|v: ValId| #[trigger] ids_seen.contains(v) ==> validators@.contains(v));
            assert(forall|k: int|
                0 <= k < validators@.len() ==> ids_seen.contains(#[trigger] validators@[k]));
        }
        if validators[last] != params.total_validators - 1 {
            return Err("validator ids do not cover the expected range (wrong max)".to_owned());
        }
        if validators[0] != 0 {
            return Err("validator ids do not cover the expected range (wrong min)".to_owned());
        }
        let connected: BTreeSet<NodeId> = collect_connected(&outbound_peers);
        let missing: Vec<NodeId> = collect_missing(params.total_nodes, &connected);
        let present: Vec<NodeId> = sorted_items(&connected);
        proof {
            lemma_ids_set(params.total_nodes);
        }
        if missing.len() > 0 || present.len() != params.total_nodes {
            proof {
                if connected@ == ids(params.total_nodes as nat).to_set() {
                    assert(present@.to_set().len() == present@.len()) by {
                        present@.unique_seq_to_set();
                    }
                }
            }
            let mut fault: String =
                "set of dialed peers and expected peers differ: missing ".to_owned();
            fault.append(list_text(&missing).as_str());
            return Err(fault);
        }
        proof {
            present@.unique_seq_to_set();
            vstd::set_lib::lemma_subset_equality(
                ids(params.total_nodes as nat).to_set(),
                connected@,
            );
        }
        Ok(Network { params, validator_assignments, outbound_peers })
    }

    /// Generates a network. The same parameters always give the same network.
    ///
    /// Each validator goes to exactly one node, so that only a node without any connection can
    /// make the generation fail.
    pub fn generate(params: Params) -> (network: Result<Self, String>)
        requires
            params@.total_nodes_with_vals > 0,
            params@.total_validators <= u32::MAX || params@.total_nodes_with_vals
                <= params@.total_validators,
        ensures
            match network {
                Ok(network) => generated(params@) == Ok::<NetworkView, Seq<char>>(network@),
                Err(fault) => generated(params@) == Err::<NetworkView, Seq<char>>(fault@),
            },
            network is Ok <==> connected_nodes(dials(drawn_links(params@))) == ids(
                params@.total_nodes as nat,
            ).to_set(),
            well_drawn(params@),
    {
        Draft::new(&params).finish(params)
    }

    /// The nodes that each node dials.
    pub fn outbound_peers(&self) -> (peers: &BTreeMap<NodeId, Vec<NodeId>>)
        ensures
            dials_of(peers@) == self@.outbound_peers,
            self@.checked(),
    {
        proof {
            use_type_invariant(self);
        }
        &self.outbound_peers
    }

    /// The validators that each node runs.
    pub fn validator_assignments(&self) -> (assignments: &BTreeMap<NodeId, BTreeSet<ValId>>)
        ensures
            assignments_of(assignments@) == self@.validator_assignments,
            self@.checked(),
    {
        proof {
            use_type_invariant(self);
        }
        &self.validator_assignments
    }

    /// What the network was generated from.
    pub fn params(&self) -> (params: &Params)
        ensures
            params@ == self@.params,
            self@.checked(),
    {
        proof {
            use_type_invariant(self);
        }
        &self.params
    }

    /// Takes the network apart.
    pub fn destructure(self) -> (parts: (
        Params,
        BTreeMap<NodeId, Vec<NodeId>>,
        BTreeMap<NodeId, BTreeSet<ValId>>,
    ))
        ensures
            parts.0@ == self@.params,
            dials_of(parts.1@) == self@.outbound_peers,
            assignments_of(parts.2@) == self@.validator_assignments,
            self@.checked(),
    {
        proof {
            use_type_invariant(&self);
        }
        (self.params, self.outbound_peers, self.validator_assignments)
    }
}

/// What holds of every draw: each validator goes to exactly one node, each node that gets a group of
/// validators but the first gets some, and so does the first where it is alone, no node dials itself or
/// connects to another node twice, and each node has at most as many connections as it wants,
/// which is a number within the set range, and fewer only where no other such node is left.
pub open spec fn well_drawn(params: ParamsView) -> bool {
    let wishes = drawn_wishes(params, params.total_nodes as nat).0;
    let links = drawn_links(params);
    &&& complete_assignment(params, drawn_assignments(params))
    &&& filled_groups(params, drawn_assignments(params))
    &&& sound_links(links, params.total_nodes as nat)
    &&& wishes_kept(params, wishes, links)
    &&& saturated(params.total_nodes as nat, wishes, links)
}

/// The network that is generated from parameters, or why there is none.
pub open spec fn generated(params: ParamsView) -> Result<NetworkView, Seq<char>> {
    let network = NetworkView {
        params,
        validator_assignments: drawn_assignments(params),
        outbound_peers: dials(drawn_links(params)),
    };
    match network_fault(params, network.validator_assignments, network.outbound_peers) {
        None => Ok(network),
        Some(fault) => Err("Network generation failed: "@ + fault),
    }
}

/// Equal parameters give equal networks: the same validators on each node and the same nodes to
/// dial, in the same order, or the same fault. A network holds the parameters that it was generated
/// from, and generating again from these gives the network again.
pub proof fn same_params_same_network(a: ParamsView, b: ParamsView)
    requires
        a.seed == b.seed,
        a.total_validators == b.total_validators,
        a.total_nodes_with_vals == b.total_nodes_with_vals,
        a.total_nodes == b.total_nodes,
        a.min_peers_per_node == b.min_peers_per_node,
        a.max_peers_per_node == b.max_peers_per_node,
    ensures
        generated(a) == generated(b),
        match (generated(a), generated(b)) {
            (Ok(first), Ok(second)) => {
                &&& first.params == a
                &&& first.validator_assignments == second.validator_assignments
                &&& first.outbound_peers == second.outbound_peers
                &&& generated(first.params) == generated(a)
            },
            (Err(first), Err(second)) => first == second,
            _ => false,
        },
{
}

/// A drawn topology that is not checked yet.
pub struct Draft {
    pub validator_assignments: BTreeMap<NodeId, BTreeSet<ValId>>,
    pub outbound_peers: BTreeMap<NodeId, Vec<NodeId>>,
    /// Whether each node has a number of connections within the set range.
    pub within_range: bool,
}

impl Draft {
    /// Whether this is what is drawn for `params`.
    pub open spec fn drawn_for(self, params: ParamsView) -> bool {
        &&& assignments_of(self.validator_assignments@) == drawn_assignments(params)
        &&& dials_of(self.outbound_peers@) == dials(drawn_links(params))
        &&& well_drawn(params)
    }

    /// Draws a topology.
    pub fn new(params: &Params) -> (draft: Self)
        requires
            params@.total_nodes_with_vals > 0,
            params@.total_validators <= u32::MAX || params@.total_nodes_with_vals
                <= params@.total_validators,
        ensures
            draft.drawn_for(params@),
            draft.within_range == within_range(params@, drawn_links(params@)),
    {
        proof {
            use_type_invariant(params);
        }
        let mut rng: SeededRng = SeededRng::seed_from_u64(params.seed);
        let validator_assignments: BTreeMap<NodeId, BTreeSet<ValId>> = assign_validators(
            params,
            &mut rng,
        );
        let (outbound_peers, within_range) = wire(params, &mut rng);
        Draft { validator_assignments, outbound_peers, within_range }
    }

    /// Checks the topology that was drawn for `params`.
    pub fn finish(self, params: Params) -> (network: Result<Network, String>)
        requires
            self.drawn_for(params@),
        ensures
            match network {
                Ok(network) => generated(params@) == Ok::<NetworkView, Seq<char>>(network@),
                Err(fault) => generated(params@) == Err::<NetworkView, Seq<char>>(fault@),
            },
            network is Ok <==> connected_nodes(dials(drawn_links(params@))) == ids(
                params@.total_nodes as nat,
            ).to_set(),
    {
        proof {
            use_type_invariant(&params);
            lemma_complete_assignment(params@, drawn_assignments(params@));
            lemma_ids_set(params@.total_validators);
        }
        match Network::new(params, self.validator_assignments, self.outbound_peers) {
            Ok(network) => Ok(network),
            Err(fault) => {
                let mut text: String = "Network generation failed: ".to_owned();
                text.append(fault.as_str());
                Err(text)
            },
        }
    }
}

} // verus!
