//! The nodes that take part in a run, by their ids.

use crate::gen_topology::wiring::{dials, dials_follow_links, dials_to, drawn_links};
use crate::gen_topology::{dials_of, well_drawn, NodeId, ParamsView, ValId};
use crate::ordered::sorted_items;
use std::collections::{BTreeMap, BTreeSet};
use vstd::prelude::*;

verus! {

/// The other nodes among `infos`, by their ids. Where an id occurs twice, the later info counts.
pub open spec fn others<T>(infos: Seq<(NodeId, T)>, node_id: NodeId) -> Map<NodeId, T>
    decreases infos.len(),
{
    if infos.len() == 0 {
        Map::empty()
    } else if infos.last().0 == node_id {
        others(infos.drop_last(), node_id)
    } else {
        others(infos.drop_last(), node_id).insert(infos.last().0, infos.last().1)
    }
}

/// Collects the other nodes among `infos`.
pub fn collect_others<T>(infos: Vec<(NodeId, T)>, node_id: NodeId) -> (participants: BTreeMap<
    NodeId,
    T,
>)
    ensures
        participants@ == others(infos@, node_id),
{
    let ghost all = infos@;
    let mut participants: BTreeMap<NodeId, T> = BTreeMap::new();
    assert(all.take(0) =~= Seq::empty());
    for info in it: infos
        invariant
            it.seq() == all,
            participants@ == others(all.take(it.index()), node_id),
    {
        proof {
            let next = all.take(it.index() + 1);
            assert(next.drop_last() =~= all.take(it.index()));
            assert(next.last() == info);
        }
        let (id, value) = info;
        if id != node_id {
            participants.insert(id, value);
        }
    }
    assert(all.take(all.len() as int) =~= all);
    participants
}

/// A node is never among its own participants.
pub proof fn others_leave_out_self<T>(infos: Seq<(NodeId, T)>, node_id: NodeId)
    ensures
        !others(infos, node_id).contains_key(node_id),
    decreases infos.len(),
{
    if infos.len() > 0 {
        others_leave_out_self(infos.drop_last(), node_id);
    }
}

/// Whether each of `peers` takes part.
pub open spec fn all_take_part<T>(participants: Map<NodeId, T>, peers: Seq<NodeId>) -> bool {
    forall|i: int| 0 <= i < peers.len() ==> participants.contains_key(#[trigger] peers[i])
}

/// The first of `peers` that does not take part.
pub fn first_stranger<T>(participants: &BTreeMap<NodeId, T>, peers: &Vec<NodeId>) -> (stranger:
    Option<NodeId>)
    ensures
        match stranger {
            Some(peer) => exists|k: int|
                0 <= k < peers@.len() && #[trigger] peers@[k] == peer
                    && !participants@.contains_key(peer) && all_take_part(
                    participants@,
                    peers@.take(k),
                ),
            None => all_take_part(participants@, peers@),
        },
{
    let mut i: usize = 0;
    while i < peers.len()
        invariant
            i <= peers@.len(),
            forall|k: int| 0 <= k < i ==> participants@.contains_key(#[trigger] peers@[k]),
        decreases peers@.len() - i,
    {
        if !participants.contains_key(&peers[i]) {
            return Some(peers[i]);
        }
        i = i + 1;
    }
    None
}

/// Whether each of the first `total` nodes told its info.
pub open spec fn all_told<T>(infos: Seq<(NodeId, T)>, total: nat) -> bool {
    forall|node: NodeId| node < total ==> #[trigger] told(infos, node)
}

/// Whether a node told its info.
pub open spec fn told<T>(infos: Seq<(NodeId, T)>, node: NodeId) -> bool {
    exists|i: int| 0 <= i < infos.len() && (#[trigger] infos[i]).0 == node
}

/// Every other node that told its info takes part.
pub proof fn lemma_told_takes_part<T>(infos: Seq<(NodeId, T)>, node_id: NodeId, node: NodeId)
    requires
        told(infos, node),
        node != node_id,
    ensures
        others(infos, node_id).contains_key(node),
    decreases infos.len(),
{
    let i = choose|i: int| 0 <= i < infos.len() && (#[trigger] infos[i]).0 == node;
    if i < infos.len() - 1 {
        assert(infos.drop_last()[i].0 == node);
        lemma_told_takes_part(infos.drop_last(), node_id, node);
    }
}

/// In a generated topology all nodes that a node dials take part, once each node of the network
/// told its info.
pub proof fn outbound_peers_take_part<T>(
    params: ParamsView,
    outbound: Map<NodeId, Vec<NodeId>>,
    infos: Seq<(NodeId, T)>,
    node_id: NodeId,
)
    requires
        well_drawn(params),
        dials_of(outbound) == dials(drawn_links(params)),
        all_told(infos, params.total_nodes as nat),
    ensures
        all_take_part(others(infos, node_id), peers_of(outbound, node_id)),
{
    let links = drawn_links(params);
    let peers = peers_of(outbound, node_id);
    dials_follow_links(links, params.total_nodes as nat);
    assert forall|i: int| 0 <= i < peers.len() implies others(infos, node_id).contains_key(
        #[trigger] peers[i],
    ) by {
        assert(dials_of(outbound)[node_id] == peers);
        assert(dials_to(dials(links), node_id, peers[i]));
        let k = choose|k: int| 0 <= k < links.len() && links[k] == (node_id, peers[i]);
        assert(links[k].0 != links[k].1 && links[k].1 < params.total_nodes);
        assert(told(infos, peers[i]));
        lemma_told_takes_part(infos, node_id, peers[i]);
    }
}

/// The infos of the nodes to dial, in dialing order.
pub fn dial_targets<'a, T>(participants: &'a BTreeMap<NodeId, T>, peers: &Vec<NodeId>) -> (targets:
    Vec<&'a T>)
    requires
        all_take_part(participants@, peers@),
    ensures
        targets@.len() == peers@.len(),
        forall|i: int|
            0 <= i < peers@.len() ==> *(#[trigger] targets@[i]) == participants@[peers@[i]],
{
    let mut targets: Vec<&'a T> = Vec::new();
    let mut i: usize = 0;
    while i < peers.len()
        invariant
            all_take_part(participants@, peers@),
            i <= peers@.len(),
            targets@.len() == i,
            forall|k: int| 0 <= k < i ==> *(#[trigger] targets@[k]) == participants@[peers@[k]],
        decreases peers@.len() - i,
    {
        assert(participants@.contains_key(peers@[i as int]));
        targets.push(participants.get(&peers[i]).unwrap());
        i = i + 1;
    }
    targets
}

/// The nodes that a node dials: none where the topology says nothing of it.
pub open spec fn peers_of(outbound: Map<NodeId, Vec<NodeId>>, node_id: NodeId) -> Seq<NodeId> {
    if outbound.contains_key(node_id) {
        outbound[node_id]@
    } else {
        Seq::empty()
    }
}

/// The nodes that a node dials.
pub fn outbound_of(outbound: &BTreeMap<NodeId, Vec<NodeId>>, node_id: NodeId) -> (peers: Vec<
    NodeId,
>)
    ensures
        peers@ == peers_of(outbound@, node_id),
{
    match outbound.get(&node_id) {
        Some(peers) => peers.clone(),
        None => Vec::new(),
    }
}

/// The validators of a node: none where the topology says nothing of it.
pub open spec fn validators_of(
    assignments: Map<NodeId, BTreeSet<ValId>>,
    node_id: NodeId,
) -> Set<u64> {
    if assignments.contains_key(node_id) {
        assignments[node_id]@.map(|validator: ValId| validator as u64)
    } else {
        Set::empty()
    }
}

/// The validators of a node, ascending.
pub fn validator_set(assignments: &BTreeMap<NodeId, BTreeSet<ValId>>, node_id: NodeId) -> (validators:
    Vec<u64>)
    ensures
        validators@.to_set() == validators_of(assignments@, node_id),
        forall|i: int, j: int|
            0 <= i < j < validators@.len() ==> validators@[i] < validators@[j],
{
    let mut validators: Vec<u64> = Vec::new();
    match assignments.get(&node_id) {
        Some(own) => {
            let ids: Vec<usize> = sorted_items(own);
            let mut i: usize = 0;
            while i < ids.len()
                invariant
                    i <= ids@.len(),
                    validators@.len() == i,
                    crate::ordered::increasing(ids@),
                    forall|k: int| 0 <= k < i ==> validators@[k] == ids@[k] as u64,
                decreases ids@.len() - i,
            {
                validators.push(ids[i] as u64);
                i = i + 1;
            }
            proof {
                let f = |validator: ValId| validator as u64;
                assert forall|v: u64| own@.map(f).contains(v) implies validators@.to_set().contains(
                    v,
                ) by {
                    let id = choose|id: ValId| own@.contains(id) && f(id) == v;
                    assert(ids@.to_set().contains(id));
                    let k = choose|k: int| 0 <= k < ids@.len() && ids@[k] == id;
                    assert(validators@[k] == v);
                }
                assert forall|v: u64| validators@.to_set().contains(v) implies own@.map(f).contains(
                    v,
                ) by {
                    let k = choose|k: int| 0 <= k < validators@.len() && validators@[k] == v;
                    assert(ids@.to_set().contains(ids@[k]));
                    assert(own@.contains(ids@[k]) && f(ids@[k]) == v);
                }
                assert(validators@.to_set() =~= validators_of(assignments@, node_id));
            }
        },
        None => {
            assert(validators@.to_set() =~= Set::empty());
        },
    }
    validators
}

/// The others are the nodes that told their info, except the node itself, each with what it told last.
pub proof fn others_are_known_by_their_last_info<T>(
    infos: Seq<(NodeId, T)>,
    node_id: NodeId,
    k: int,
)
    requires
        0 <= k < infos.len(),
        infos[k].0 != node_id,
        forall|i: int| k < i < infos.len() ==> (#[trigger] infos[i]).0 != infos[k].0,
    ensures
        others(infos, node_id).contains_key(infos[k].0),
        others(infos, node_id)[infos[k].0] == infos[k].1,
    decreases infos.len(),
{
    if k < infos.len() - 1 {
        let before = infos.drop_last();
        assert(infos[infos.len() - 1].0 != infos[k].0);
        assert forall|i: int| k < i < before.len() implies (#[trigger] before[i]).0
            != before[k].0 by {
            assert(infos[i].0 != infos[k].0);
        }
        others_are_known_by_their_last_info(before, node_id, k);
    }
}

/// No other nodes take part than those that told their info.
pub proof fn only_told_nodes_take_part<T>(infos: Seq<(NodeId, T)>, node_id: NodeId, node: NodeId)
    ensures
        others(infos, node_id).contains_key(node) <==> node != node_id && exists|i: int|
            0 <= i < infos.len() && (#[trigger] infos[i]).0 == node,
    decreases infos.len(),
{
    if node != node_id && told(infos, node) {
        lemma_told_takes_part(infos, node_id, node);
    }
    if infos.len() > 0 {
        only_told_nodes_take_part(infos.drop_last(), node_id, node);
        if others(infos, node_id).contains_key(node) {
            if infos.last().0 == node {
                assert(infos[infos.len() - 1].0 == node);
            } else {
                let i = choose|i: int|
                    0 <= i < infos.drop_last().len() && (#[trigger] infos.drop_last()[i]).0 == node;
                assert(infos[i].0 == node);
            }
        }
    }
}

/// A node dials what the topology says of it, and runs the validators that are assigned to it. Where the
/// topology says nothing of it, there are none.
pub proof fn nodes_follow_the_topology(
    outbound: Map<NodeId, Vec<NodeId>>,
    assignments: Map<NodeId, BTreeSet<ValId>>,
    node_id: NodeId,
    validator: u64,
)
    ensures
        outbound.contains_key(node_id) ==> peers_of(outbound, node_id) == outbound[node_id]@,
        !outbound.contains_key(node_id) ==> peers_of(outbound, node_id).len() == 0,
        validators_of(assignments, node_id).contains(validator) <==> assignments.contains_key(
            node_id,
        ) && exists|id: ValId| #[trigger] assignments[node_id]@.contains(id) && id as u64
            == validator,
{
    if assignments.contains_key(node_id) {
        let f = |id: ValId| id as u64;
        let own = assignments[node_id]@;
        assert(validators_of(assignments, node_id) == own.map(f));
        if exists|id: ValId| #[trigger] own.contains(id) && id as u64 == validator {
            let id = choose|id: ValId| #[trigger] own.contains(id) && id as u64 == validator;
            assert(own.contains(id) && f(id) == validator);
        }
    }
}

} // verus!
