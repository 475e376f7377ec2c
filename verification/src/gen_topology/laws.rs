//! What holds of drawn topologies, in terms of the draws themselves.

use super::draft::{cuts, drawn_assignments, drawn_validators};
use super::wiring::{
    connect, connections, connections_behind, degree, dials, drawn_links, drawn_offers,
    drawn_wishes, within_range,
};
use super::{
    assigned_pairs, assigned_validators, assignments_of, connected_nodes, dials_of, generated, ids,
    lemma_ids_set, missing_nodes, network_fault, params_fault, NetworkView, NodeId, ParamsView, ValId,
};
use crate::ordered::{ascending, increasing, lemma_same_items};
use crate::rng::{chacha8_choose, chacha8_range, chacha8_ratio, chacha8_shuffle, rearranged};
use crate::text::{decimal, listed};
use std::collections::BTreeSet;
use vstd::prelude::*;

verus! {

/// The numbers below `total`, ascending.
pub open spec fn below(total: usize) -> Seq<usize> {
    Seq::new(total as nat, |i: int| i as usize)
}

/// A shuffled sequence holds at each place what stood at the place that the order tells.
pub proof fn rearranging_follows_the_order<T>(items: Seq<T>, order: Seq<int>)
    ensures
        rearranged(items, order).len() == items.len(),
        forall|i: int| 0 <= i < items.len() ==> #[trigger] rearranged(items, order)[i]
            == items[order[i]],
{
}

/// The places at which the validators are cut come first: they are drawn from the numbers below the
/// number of validators, one fewer than there are nodes with validators. The validators are put in
/// the order of the shuffle that is drawn directly after them. Node `k` runs those between cut `k`
/// and the next one, and the draws of the connections start where the shuffle ends.
pub proof fn validators_are_dealt_as_shuffled(params: ParamsView, node: NodeId, validator: ValId)
    requires
        params.total_validators > 0,
        ({
            let picked = chacha8_choose(
                params.seed,
                0,
                below(params.total_validators),
                (params.total_nodes_with_vals - 1) as nat,
            ).0;
            forall|k: int| 0 <= k < picked.len() ==> #[trigger] picked[k] < params.total_validators
        }),
    ensures
        ({
            let (picked, start) = chacha8_choose(
                params.seed,
                0,
                below(params.total_validators),
                (params.total_nodes_with_vals - 1) as nat,
            );
            let (order, end) = chacha8_shuffle(params.seed, start, params.total_validators as nat);
            let places = cuts(params);
            let assigned = drawn_assignments(params);
            &&& places.to_multiset() == picked.push(params.total_validators).push(0).to_multiset()
            &&& ascending(places)
            &&& assigned.contains_key(node) <==> node < picked.len() + 1
            &&& assigned.contains_key(node) ==> (assigned[node].contains(validator) <==> exists|
                place: int,
            |
                places[node as int] <= place < places[node + 1] && #[trigger] below(
                    params.total_validators,
                )[order[place]] == validator)
            &&& drawn_wishes(params, 0).1 == end
        }),
{
    let total = params.total_validators;
    assert(below(total) =~= ids(total as nat));
    let (picked, start) = chacha8_choose(
        params.seed,
        0,
        below(total),
        (params.total_nodes_with_vals - 1) as nat,
    );
    let (order, end) = chacha8_shuffle(params.seed, start, total as nat);
    let all = picked.push(total).push(0);
    let leq = |a: usize, b: usize| a <= b;
    all.lemma_sort_by_ensures(leq);
    let places = cuts(params);
    assert(places == all.sort_by(leq));
    lemma_same_items(places, all);
    assert forall|i: int, j: int| 0 <= i < j < places.len() implies places[i] <= places[j] by {
        assert(leq(places[i], places[j]));
    }
    assert forall|k: int| 0 <= k < places.len() implies #[trigger] places[k] <= total by {
        assert(places.contains(places[k]));
        assert(all.contains(places[k]));
        let m = choose|m: int| 0 <= m < all.len() && all[m] == places[k];
        if m < picked.len() {
            assert(all[m] == picked[m]);
        }
    }
    let dealt = rearranged(below(total), order);
    assert(drawn_validators(params).0 == dealt);
    if node + 1 < places.len() {
        assert(places[node as int] <= places[node + 1]);
        let group = dealt.subrange(places[node as int] as int, places[node + 1] as int);
        assert(drawn_assignments(params)[node] == group.to_set());
        if group.contains(validator) {
            let g = choose|g: int| 0 <= g < group.len() && group[g] == validator;
            assert(below(total)[order[places[node as int] + g]] == validator);
        }
        if exists|place: int|
            places[node as int] <= place < places[node + 1] && #[trigger] below(total)[order[place]]
                == validator {
            let place = choose|place: int|
                places[node as int] <= place < places[node + 1] && #[trigger] below(
                    total,
                )[order[place]] == validator;
            assert(group[place - places[node as int]] == validator);
        }
    }
}

/// Each node in turn draws how many connections it wants, from the least to the largest number of the
/// range. Each draw starts where the one before it ends.
pub proof fn wishes_are_drawn_in_turn(params: ParamsView, node: nat)
    ensures
        ({
            let (before, pos) = drawn_wishes(params, node);
            let (after, end) = drawn_wishes(params, node + 1);
            let drawn = chacha8_range(
                usize::BITS,
                params.seed,
                pos,
                params.min_peers_per_node,
                params.max_peers_per_node,
            );
            &&& drawn_wishes(params, 0).0.len() == 0
            &&& after == before.push(drawn.0)
            &&& end == drawn.1
        }),
{
}

/// Whether a pair of nodes comes before another: by its first node, then by its second.
pub open spec fn comes_before(a: (NodeId, NodeId), b: (NodeId, NodeId)) -> bool {
    a.0 < b.0 || (a.0 == b.0 && a.1 < b.1)
}

proof fn lemma_connections_order(nodes: nat, total: nat)
    requires
        nodes <= total <= usize::MAX,
    ensures
        forall|i: int|
            0 <= i < connections(nodes, total).len() ==> (#[trigger] connections(
                nodes,
                total,
            )[i]).0 < connections(nodes, total)[i].1 < total && connections(nodes, total)[i].0
                < nodes,
        forall|i: int, j: int|
            0 <= i < j < connections(nodes, total).len() ==> comes_before(
                #[trigger] connections(nodes, total)[i],
                #[trigger] connections(nodes, total)[j],
            ),
        forall|a: NodeId, b: NodeId|
            a < b < total && a < nodes ==> #[trigger] connections(nodes, total).contains((a, b)),
    decreases nodes,
{
    if nodes > 0 {
        let before = (nodes - 1) as nat;
        lemma_connections_order(before, total);
        let head = connections(before, total);
        let row = connections_behind(before, total);
        let all = connections(nodes, total);
        assert(all == head + row);
        assert forall|i: int, j: int| 0 <= i < j < all.len() implies comes_before(
            #[trigger] all[i],
            #[trigger] all[j],
        ) by {
            if j < head.len() {
                assert(comes_before(head[i], head[j]));
            } else if i < head.len() {
                assert(head[i].0 < before);
                assert(all[j] == row[j - head.len()]);
            } else {
                assert(all[i] == row[i - head.len()] && all[j] == row[j - head.len()]);
            }
        }
        assert forall|a: NodeId, b: NodeId| a < b < total && a < nodes implies #[trigger]
            all.contains((a, b)) by {
            if a < before {
                assert(head.contains((a, b)));
                let k = choose|k: int| 0 <= k < head.len() && head[k] == (a, b);
                assert(all[k] == (a, b));
            } else {
                assert(row[b - before - 1] == (a, b));
                assert(all[head.len() + (b - before - 1)] == (a, b));
            }
        }
        assert forall|i: int| 0 <= i < all.len() implies (#[trigger] all[i]).0 < all[i].1 < total
            && all[i].0 < nodes by {
            if i < head.len() {
                assert(all[i] == head[i]);
            } else {
                assert(all[i] == row[i - head.len()]);
            }
        }
    }
}

/// Every pair of nodes is offered once, in an order that is drawn after all wishes: the shuffle
/// starts from the pairs in their natural order.
pub proof fn every_pair_is_offered(params: ParamsView, a: NodeId, b: NodeId)
    ensures
        ({
            let total = params.total_nodes as nat;
            let pairs = connections(total, total);
            let (order, end) = chacha8_shuffle(
                params.seed,
                drawn_wishes(params, total).1,
                pairs.len(),
            );
            &&& a < b < total ==> pairs.contains((a, b))
            &&& forall|i: int| 0 <= i < pairs.len() ==> (#[trigger] pairs[i]).0 < pairs[i].1 < total
            &&& forall|i: int, j: int|
                0 <= i < j < pairs.len() ==> comes_before(#[trigger] pairs[i], #[trigger] pairs[j])
            &&& drawn_offers(params).0.len() == pairs.len()
            &&& forall|i: int|
                0 <= i < pairs.len() ==> #[trigger] drawn_offers(params).0[i] == pairs[order[i]]
            &&& drawn_offers(params).1 == end
        }),
{
    lemma_connections_order(params.total_nodes as nat, params.total_nodes as nat);
}

/// The last offer is taken first. It makes a connection exactly where both nodes have fewer connections
/// than they want. Then the node that stands first in the offer dials in three of five cases.
pub proof fn offers_are_taken_in_turn(
    seed: u64,
    wishes: Seq<usize>,
    offers: Seq<(NodeId, NodeId)>,
    a: NodeId,
    b: NodeId,
    links: Seq<(NodeId, NodeId)>,
    pos: u128,
)
    ensures
        connect(seed, wishes, Seq::empty(), links, pos) == links,
        ({
            let all = offers.push((a, b));
            let (first_dials, end) = chacha8_ratio(seed, pos, 3, 5);
            let both_want = degree(links, a) < wishes[a as int] && degree(links, b)
                < wishes[b as int];
            &&& !both_want ==> connect(seed, wishes, all, links, pos) == connect(
                seed,
                wishes,
                offers,
                links,
                pos,
            )
            &&& both_want && first_dials ==> connect(seed, wishes, all, links, pos) == connect(
                seed,
                wishes,
                offers,
                links.push((a, b)),
                end,
            )
            &&& both_want && !first_dials ==> connect(seed, wishes, all, links, pos) == connect(
                seed,
                wishes,
                offers,
                links.push((b, a)),
                end,
            )
        }),
{
    assert(offers.push((a, b)).drop_last() =~= offers);
}

/// A node has as many connections as there are links that it dials or is dialed on.
pub proof fn each_link_counts_at_both_ends(
    links: Seq<(NodeId, NodeId)>,
    from: NodeId,
    to: NodeId,
    node: NodeId,
)
    ensures
        degree(Seq::empty(), node) == 0,
        node == from || node == to ==> degree(links.push((from, to)), node) == degree(links, node)
            + 1,
        node != from && node != to ==> degree(links.push((from, to)), node) == degree(links, node),
{
    assert(links.push((from, to)).drop_last() =~= links);
}

/// The links of a network are what comes of the offers, from no links at all, with the wishes of all
/// nodes and from where the shuffle of the offers ends.
pub proof fn links_come_of_the_offers(params: ParamsView)
    ensures
        drawn_links(params) == connect(
            params.seed,
            drawn_wishes(params, params.total_nodes as nat).0,
            drawn_offers(params).0,
            Seq::empty(),
            drawn_offers(params).1,
        ),
        within_range(params, drawn_links(params)) <==> forall|node: NodeId|
            node < params.total_nodes ==> params.min_peers_per_node <= #[trigger] degree(
                drawn_links(params),
                node,
            ) <= params.max_peers_per_node,
{
}

/// Each link adds the node that is dialed behind those that the dialing node dials already, and changes
/// nothing else.
pub proof fn dials_are_in_the_order_of_links(
    links: Seq<(NodeId, NodeId)>,
    from: NodeId,
    to: NodeId,
    node: NodeId,
)
    ensures
        !dials(Seq::empty()).contains_key(node),
        ({
            let before = dials(links);
            let after = dials(links.push((from, to)));
            &&& after.contains_key(node) <==> before.contains_key(node) || node == from
            &&& node != from && before.contains_key(node) ==> after[node] == before[node]
            &&& after[from] == (if before.contains_key(from) {
                before[from]
            } else {
                Seq::empty()
            }) + seq![to]
        }),
{
    assert(links.push((from, to)).drop_last() =~= links);
    let before = dials(links);
    let after = dials(links.push((from, to)));
    if before.contains_key(from) {
        assert(after[from] =~= before[from] + seq![to]);
    } else {
        assert(after[from] =~= Seq::empty() + seq![to]);
    }
}

/// A network is generated from the validators that were dealt and the connections that were made, and
/// where it is not sound the report says so.
pub proof fn networks_are_generated_from_the_draws(params: ParamsView)
    ensures
        ({
            let fault = network_fault(
                params,
                drawn_assignments(params),
                dials(drawn_links(params)),
            );
            &&& generated(params) is Ok <==> fault is None
            &&& generated(params) matches Ok(network) ==> network.params == params
                && network.validator_assignments == drawn_assignments(params)
                && network.outbound_peers == dials(drawn_links(params))
            &&& generated(params) matches Err(report) ==> report == "Network generation failed: "@
                + fault->Some_0
        }),
{
}

/// What the sets that a network is checked by hold.
pub proof fn networks_are_checked_by_members(
    assigned: Map<NodeId, Set<ValId>>,
    dialed: Map<NodeId, Seq<NodeId>>,
    node: NodeId,
    validator: ValId,
)
    ensures
        assigned_pairs(assigned).contains((node, validator)) <==> assigned.contains_key(node)
            && assigned[node].contains(validator),
        assigned_validators(assigned).contains(validator) <==> exists|n: NodeId|
            assigned.contains_key(n) && #[trigger] assigned[n].contains(validator),
        connected_nodes(dialed).contains(node) <==> dialed.contains_key(node) || exists|n: NodeId|
            dialed.contains_key(n) && #[trigger] dialed[n].contains(node),
{
    if exists|n: NodeId| assigned.contains_key(n) && #[trigger] assigned[n].contains(validator) {
        let n = choose|n: NodeId|
            assigned.contains_key(n) && #[trigger] assigned[n].contains(validator);
        assert(assigned.contains_key(n));
    }
    if assigned_validators(assigned).contains(validator) {
        let n = choose|n: NodeId| #[trigger]
            assigned.contains_key(n) && assigned[n].contains(validator);
        assert(assigned[n].contains(validator));
    }
    if exists|n: NodeId| dialed.contains_key(n) && #[trigger] dialed[n].contains(node) {
        let n = choose|n: NodeId| dialed.contains_key(n) && #[trigger] dialed[n].contains(node);
        assert(dialed.contains_key(n));
    }
    if connected_nodes(dialed).contains(node) && !dialed.contains_key(node) {
        let n = choose|n: NodeId| #[trigger] dialed.contains_key(n) && dialed[n].contains(node);
        assert(dialed[n].contains(node));
    }
}

/// Why a network is not sound: the number of assigned validators, one that is assigned twice, the
/// largest or the smallest id, or the nodes that are connected, in this order.
pub proof fn the_first_fault_of_a_network_is_reported(network: NetworkView)
    requires
        network.params.total_validators > 0,
    ensures
        ({
            let params = network.params;
            let total = assigned_pairs(network.validator_assignments).len();
            let validators = assigned_validators(network.validator_assignments);
            let connected = connected_nodes(network.outbound_peers);
            let counted = total == params.total_validators;
            let single = validators.len() == total;
            let largest = validators.contains((params.total_validators - 1) as usize) && forall|
                v: ValId,
            | #[trigger]
                validators.contains(v) ==> v < params.total_validators;
            let smallest = validators.contains(0);
            let reached = forall|n: NodeId| #[trigger] connected.contains(n) <==> n
                < params.total_nodes;
            match network_fault(params, network.validator_assignments, network.outbound_peers) {
                None => counted && single && largest && smallest && reached,
                Some(fault) => if !counted {
                    fault
                        == "the number of assigned validators does not match the expected number. Found "@
                        + decimal(total) + ", expected "@ + decimal(
                        params.total_validators as nat,
                    )
                } else if !single {
                    fault == "a validator id was assigned more than once"@
                } else if !largest {
                    fault == "validator ids do not cover the expected range (wrong max)"@
                } else if !smallest {
                    fault == "validator ids do not cover the expected range (wrong min)"@
                } else {
                    !reached && fault == "set of dialed peers and expected peers differ: missing "@
                        + listed(missing_nodes(params.total_nodes as nat, connected))
                },
            }
        }),
{
    let connected = connected_nodes(network.outbound_peers);
    lemma_ids_set(network.params.total_nodes);
    if forall|n: NodeId| #[trigger] connected.contains(n) <==> n < network.params.total_nodes {
        assert(connected =~= ids(network.params.total_nodes as nat).to_set());
    }
}

/// The nodes that are reported as missing are those of the network that are not connected, ascending.
pub proof fn missing_nodes_are_not_connected(total: usize, connected: Set<NodeId>, node: NodeId)
    ensures
        missing_nodes(total as nat, connected).contains(node) <==> node < total
            && !connected.contains(node),
        increasing(missing_nodes(total as nat, connected)),
    decreases total,
{
    reveal(Seq::filter);
    let missing = missing_nodes(total as nat, connected);
    if total > 0 {
        let before = missing_nodes((total - 1) as nat, connected);
        missing_nodes_are_not_connected((total - 1) as usize, connected, node);
        assert(ids(total as nat).drop_last() =~= ids((total - 1) as nat));
        assert(ids(total as nat).last() == total - 1);
        assert forall|i: int| 0 <= i < before.len() implies #[trigger] before[i] < total - 1 by {
            assert(before.contains(before[i]));
            missing_nodes_are_not_connected((total - 1) as usize, connected, before[i]);
        }
        if !connected.contains((total - 1) as usize) {
            assert(missing == before.push((total - 1) as usize));
            if before.contains(node) {
                let k = choose|k: int| 0 <= k < before.len() && before[k] == node;
                assert(missing[k] == node);
            }
            assert(missing[missing.len() - 1] == total - 1);
            if missing.contains(node) && node != total - 1 {
                let k = choose|k: int| 0 <= k < missing.len() && missing[k] == node;
                assert(before[k] == node);
            }
        }
    }
}

/// The numbers of a network are refused where the nodes cannot be counted, where there are none, where
/// there are no validators, or where the range of connections is empty, in this order.
pub proof fn the_first_fault_of_numbers_is_reported(
    validators: usize,
    with_vals: usize,
    without_vals: usize,
    least: usize,
    most: usize,
)
    ensures
        ({
            let fault = params_fault(validators, with_vals, without_vals, least, most);
            let counted = with_vals + without_vals <= usize::MAX;
            let some_node = with_vals > 0 || without_vals > 0;
            &&& fault is None <==> counted && some_node && validators > 0 && least <= most
            &&& fault matches Some(report) ==> report == if !counted {
                "bad number of nodes with validators"@
            } else if !some_node {
                "Empty network"@
            } else if validators == 0 {
                "no validators in the network"@
            } else {
                "bad connection range"@
            }
        }),
{
}

/// The maps of a network stand for what they hold: the validators of each node, and the nodes that it
/// dials, in order.
pub proof fn maps_stand_for_what_they_hold(
    assigned: Map<NodeId, BTreeSet<ValId>>,
    dialed: Map<NodeId, Vec<NodeId>>,
    node: NodeId,
)
    ensures
        assignments_of(assigned).contains_key(node) <==> assigned.contains_key(node),
        assigned.contains_key(node) ==> assignments_of(assigned)[node] == assigned[node]@,
        dials_of(dialed).contains_key(node) <==> dialed.contains_key(node),
        dialed.contains_key(node) ==> dials_of(dialed)[node] == dialed[node]@,
{
}

} // verus!
