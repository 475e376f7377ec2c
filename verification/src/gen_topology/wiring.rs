//! Which nodes connect, and who dials.

use super::draft::drawn_validators;
use super::{dials_of, NodeId, Params, ParamsView};
use crate::ordered::lemma_same_items;
use crate::rng::{chacha8_range, chacha8_ratio, chacha8_shuffle, rearranged, SeededRng};
use std::collections::BTreeMap;
use vstd::prelude::*;

verus! {

/// How many connections each of the first `nodes` nodes wants, and where the generator stands
/// afterwards.
pub open spec fn drawn_wishes(params: ParamsView, nodes: nat) -> (Seq<usize>, u128)
    decreases nodes,
{
    if nodes == 0 {
        (Seq::empty(), drawn_validators(params).1)
    } else {
        let (wishes, pos) = drawn_wishes(params, (nodes - 1) as nat);
        let (wish, next) = chacha8_range(
            usize::BITS,
            params.seed,
            pos,
            params.min_peers_per_node,
            params.max_peers_per_node,
        );
        (wishes.push(wish), next)
    }
}

/// The connections of `node` to the nodes behind it.
pub open spec fn connections_behind(node: nat, total: nat) -> Seq<(NodeId, NodeId)> {
    Seq::new((total - node - 1) as nat, |k: int| (node as usize, (node + 1 + k) as usize))
}

/// The connections of the first `nodes` nodes to the nodes behind them.
pub open spec fn connections(nodes: nat, total: nat) -> Seq<(NodeId, NodeId)>
    decreases nodes,
{
    if nodes == 0 {
        Seq::empty()
    } else {
        connections((nodes - 1) as nat, total) + connections_behind((nodes - 1) as nat, total)
    }
}

/// All possible connections in random order, and where the generator stands afterwards.
pub open spec fn drawn_offers(params: ParamsView) -> (Seq<(NodeId, NodeId)>, u128) {
    let total = params.total_nodes as nat;
    let all = connections(total, total);
    let (order, pos) = chacha8_shuffle(params.seed, drawn_wishes(params, total).1, all.len());
    (rearranged(all, order), pos)
}

/// How many of `links` end in `node`.
pub open spec fn degree(links: Seq<(NodeId, NodeId)>, node: NodeId) -> nat
    decreases links.len(),
{
    if links.len() == 0 {
        0
    } else {
        degree(links.drop_last(), node) + if links.last().0 == node || links.last().1 == node {
            1nat
        } else {
            0nat
        }
    }
}

/// Takes the offers from the last to the first: a connection is made where both nodes want more
/// connections than they have, and the smaller node dials with odds of three to two.
pub open spec fn connect(
    seed: u64,
    wishes: Seq<usize>,
    offers: Seq<(NodeId, NodeId)>,
    links: Seq<(NodeId, NodeId)>,
    pos: u128,
) -> Seq<(NodeId, NodeId)>
    decreases offers.len(),
{
    if offers.len() == 0 {
        links
    } else {
        let (a, b) = offers.last();
        if degree(links, a) >= wishes[a as int] || degree(links, b) >= wishes[b as int] {
            connect(seed, wishes, offers.drop_last(), links, pos)
        } else {
            let (from_a_to_b, next) = chacha8_ratio(seed, pos, 3, 5);
            connect(
                seed,
                wishes,
                offers.drop_last(),
                links.push(
                    if from_a_to_b {
                        (a, b)
                    } else {
                        (b, a)
                    },
                ),
                next,
            )
        }
    }
}

/// The connections that are made, each as the node that dials and the node that it dials.
pub open spec fn drawn_links(params: ParamsView) -> Seq<(NodeId, NodeId)> {
    connect(
        params.seed,
        drawn_wishes(params, params.total_nodes as nat).0,
        drawn_offers(params).0,
        Seq::empty(),
        drawn_offers(params).1,
    )
}

/// The nodes that each node dials, in the order of `links`.
pub open spec fn dials(links: Seq<(NodeId, NodeId)>) -> Map<NodeId, Seq<NodeId>>
    decreases links.len(),
{
    if links.len() == 0 {
        Map::empty()
    } else {
        let before = dials(links.drop_last());
        let (from, to) = links.last();
        before.insert(
            from,
            if before.contains_key(from) {
                before[from].push(to)
            } else {
                seq![to]
            },
        )
    }
}

/// Whether two nodes are connected, whoever dials.
pub open spec fn linked(links: Seq<(NodeId, NodeId)>, a: NodeId, b: NodeId) -> bool {
    links.contains((a, b)) || links.contains((b, a))
}

/// No node dials itself or a node outside the network, and no two nodes are connected twice.
pub open spec fn sound_links(links: Seq<(NodeId, NodeId)>, total: nat) -> bool {
    &&& forall|k: int|
        0 <= k < links.len() ==> (#[trigger] links[k]).0 != links[k].1 && links[k].0 < total
            && links[k].1 < total
    &&& forall|k: int, m: int|
        0 <= k < m < links.len() ==> #[trigger] links[k] != #[trigger] links[m] && links[k] != (
            links[m].1,
            links[m].0,
        )
}

/// No node has more connections than it wants, and it wants a number within the set range.
pub open spec fn wishes_kept(
    params: ParamsView,
    wishes: Seq<usize>,
    links: Seq<(NodeId, NodeId)>,
) -> bool {
    &&& wishes.len() == params.total_nodes
    &&& forall|node: NodeId|
        node < params.total_nodes ==> #[trigger] degree(links, node) <= wishes[node as int]
            && params.min_peers_per_node <= wishes[node as int] <= params.max_peers_per_node
}

/// Two nodes that are not connected do not both want one more connection.
pub open spec fn saturated(
    total: nat,
    wishes: Seq<usize>,
    links: Seq<(NodeId, NodeId)>,
) -> bool {
    forall|a: NodeId, b: NodeId|
        a < b < total ==> #[trigger] linked(links, a, b) || degree(links, a) >= wishes[a as int]
            || degree(links, b) >= wishes[b as int]
}

/// Whether each node has a number of connections within the set range.
pub open spec fn within_range(params: ParamsView, links: Seq<(NodeId, NodeId)>) -> bool {
    forall|node: NodeId|
        node < params.total_nodes ==> params.min_peers_per_node <= #[trigger] degree(links, node)
            <= params.max_peers_per_node
}

proof fn lemma_connections(nodes: nat, total: nat)
    requires
        nodes <= total <= usize::MAX,
    ensures
        forall|pair: (NodeId, NodeId)| #[trigger]
            connections(nodes, total).contains(pair) <==> pair.0 < pair.1 < total && pair.0
                < nodes,
        connections(nodes, total).no_duplicates(),
    decreases nodes,
{
    if nodes > 0 {
        let before = (nodes - 1) as nat;
        lemma_connections(before, total);
        let row = connections_behind(before, total);
        let head = connections(before, total);
        let all = connections(nodes, total);
        assert forall|pair: (NodeId, NodeId)| pair.0 < pair.1 < total && pair.0
            < nodes implies #[trigger] all.contains(pair) by {
            if pair.0 < before {
                assert(head.contains(pair));
                let k = choose|k: int| 0 <= k < head.len() && head[k] == pair;
                assert(all[k] == pair);
            } else {
                let k = pair.1 - before - 1;
                assert(row[k] == pair);
                assert(all[head.len() + k] == pair);
            }
        }
        assert forall|pair: (NodeId, NodeId)| #[trigger] all.contains(pair) implies pair.0 < pair.1
            < total && pair.0 < nodes by {
            let k = choose|k: int| 0 <= k < all.len() && all[k] == pair;
            if k < head.len() {
                assert(head[k] == pair);
                assert(head.contains(pair));
            } else {
                assert(row[k - head.len()] == pair);
            }
        }
        assert forall|k: int, m: int| 0 <= k < m < all.len() implies all[k] != all[m] by {
            if m < head.len() {
                assert(head[k] != head[m]);
            } else if k < head.len() {
                assert(head.contains(head[k]));
                assert(all[m] == row[m - head.len()]);
            }
        }
    }
}

proof fn lemma_degree_push(links: Seq<(NodeId, NodeId)>, link: (NodeId, NodeId), node: NodeId)
    ensures
        degree(links.push(link), node) == degree(links, node) + if link.0 == node || link.1 == node {
            1nat
        } else {
            0nat
        },
{
    assert(links.push(link).drop_last() =~= links);
}

proof fn lemma_linked_push(
    links: Seq<(NodeId, NodeId)>,
    link: (NodeId, NodeId),
    a: NodeId,
    b: NodeId,
)
    requires
        linked(links, a, b) || link == (a, b) || link == (b, a),
    ensures
        linked(links.push(link), a, b),
{
    if link == (a, b) || link == (b, a) {
        assert(links.push(link)[links.len() as int] == link);
    } else {
        let k = choose|k: int| 0 <= k < links.len() && (links[k] == (a, b) || links[k] == (b, a));
        assert(links.push(link)[k] == links[k]);
    }
}

/// Whether `from` dials `to`.
pub open spec fn dials_to(dialed: Map<NodeId, Seq<NodeId>>, from: NodeId, to: NodeId) -> bool {
    dialed.contains_key(from) && dialed[from].contains(to)
}

/// A node dials another exactly where there is such a link, and it dials none twice.
pub proof fn dials_follow_links(links: Seq<(NodeId, NodeId)>, total: nat)
    requires
        sound_links(links, total),
    ensures
        forall|from: NodeId, to: NodeId|
            #[trigger] dials_to(dials(links), from, to) <==> links.contains((from, to)),
        forall|from: NodeId| #[trigger]
            dials(links).contains_key(from) ==> dials(links)[from].no_duplicates()
                && dials(links)[from].len() > 0,
    decreases links.len(),
{
    if links.len() > 0 {
        let before = links.drop_last();
        let (f, t) = links.last();
        assert(sound_links(before, total));
        dials_follow_links(before, total);
        let old_dials = dials(before);
        let new_dials = dials(links);
        assert(!before.contains((f, t))) by {
            if before.contains((f, t)) {
                let k = choose|k: int| 0 <= k < before.len() && before[k] == (f, t);
                assert(links[k] == links[links.len() - 1]);
            }
        }
        assert forall|from: NodeId, to: NodeId|
            #[trigger] dials_to(new_dials, from, to) <==> links.contains((from, to)) by {
            assert(dials_to(old_dials, from, to) <==> before.contains((from, to)));
            assert(links.contains((from, to)) <==> before.contains((from, to)) || (from, to) == (
                f,
                t,
            )) by {
                if before.contains((from, to)) {
                    let k = choose|k: int| 0 <= k < before.len() && before[k] == (from, to);
                    assert(links[k] == (from, to));
                }
                if (from, to) == (f, t) {
                    assert(links[links.len() - 1] == (from, to));
                }
                if links.contains((from, to)) && (from, to) != (f, t) {
                    let k = choose|k: int| 0 <= k < links.len() && links[k] == (from, to);
                    assert(before[k] == (from, to));
                }
            }
            if from == f {
                let peers = new_dials[f];
                if old_dials.contains_key(f) {
                    let earlier = old_dials[f];
                    if earlier.contains(to) {
                        let k = choose|k: int| 0 <= k < earlier.len() && earlier[k] == to;
                        assert(peers[k] == to);
                    }
                    if peers.contains(to) && to != t {
                        let k = choose|k: int| 0 <= k < peers.len() && peers[k] == to;
                        assert(earlier[k] == to);
                    }
                    assert(peers[earlier.len() as int] == t);
                } else {
                    assert(peers[0] == t);
                }
            }
        }
        assert forall|from: NodeId| #[trigger] new_dials.contains_key(
            from,
        ) implies new_dials[from].no_duplicates() && new_dials[from].len() > 0 by {
            if from == f && old_dials.contains_key(f) {
                assert(!dials_to(old_dials, f, t));
            }
        }
    }
}

/// Draws how many connections each node wants.
fn draw_wishes(params: &Params, rng: &mut SeededRng) -> (wishes: Vec<usize>)
    requires
        params@.valid(),
        old(rng).seed == params@.seed,
        old(rng).pos == drawn_validators(params@).1,
    ensures
        wishes@ == drawn_wishes(params@, params@.total_nodes as nat).0,
        wishes@.len() == params@.total_nodes,
        forall|k: int|
            0 <= k < wishes@.len() ==> params@.min_peers_per_node <= #[trigger] wishes@[k]
                <= params@.max_peers_per_node,
        final(rng).seed == params@.seed,
        final(rng).pos == drawn_wishes(params@, params@.total_nodes as nat).1,
{
    let mut wishes: Vec<usize> = Vec::new();
    let total: usize = params.total_nodes();
    let mut node: usize = 0;
    while node < total
        invariant
            params@.valid(),
            total == params@.total_nodes,
            node <= total,
            wishes@.len() == node,
            rng.seed == params@.seed,
            (wishes@, rng.pos) == drawn_wishes(params@, node as nat),
            forall|k: int|
                0 <= k < wishes@.len() ==> params@.min_peers_per_node <= #[trigger] wishes@[k]
                    <= params@.max_peers_per_node,
        decreases total - node,
    {
        wishes.push(rng.gen_range(params.min_peers(), params.max_peers()));
        node = node + 1;
    }
    wishes
}

/// Every possible connection, ignoring who dials.
fn all_connections(total: usize) -> (all: Vec<(NodeId, NodeId)>)
    ensures
        all@ == connections(total as nat, total as nat),
{
    let mut all: Vec<(NodeId, NodeId)> = Vec::new();
    let mut i: usize = 0;
    while i < total
        invariant
            i <= total,
            all@ == connections(i as nat, total as nat),
        decreases total - i,
    {
        let ghost head = all@;
        let ghost row = connections_behind(i as nat, total as nat);
        let mut j: usize = i + 1;
        assert(row.take(0) =~= Seq::empty());
        assert(all@ =~= head + row.take(0));
        while j < total
            invariant
                i < j <= total,
                row == connections_behind(i as nat, total as nat),
                all@ == head + row.take(j - i - 1),
            decreases total - j,
        {
            all.push((i, j));
            assert(row.take(j - i) =~= row.take(j - i - 1).push((i, j)));
            assert(all@ =~= head + row.take(j - i));
            j = j + 1;
        }
        assert(row.take(row.len() as int) =~= row);
        i = i + 1;
    }
    all
}

/// Draws the connections of a network. The second result tells whether each node has a number of
/// connections within the set range.
pub(crate) fn wire(params: &Params, rng: &mut SeededRng) -> (wired: (
    BTreeMap<NodeId, Vec<NodeId>>,
    bool,
))
    requires
        params@.valid(),
        old(rng).seed == params@.seed,
        old(rng).pos == drawn_validators(params@).1,
    ensures
        dials_of(wired.0@) == dials(drawn_links(params@)),
        wired.1 == within_range(params@, drawn_links(params@)),
        sound_links(drawn_links(params@), params@.total_nodes as nat),
        wishes_kept(
            params@,
            drawn_wishes(params@, params@.total_nodes as nat).0,
            drawn_links(params@),
        ),
        saturated(
            params@.total_nodes as nat,
            drawn_wishes(params@, params@.total_nodes as nat).0,
            drawn_links(params@),
        ),
{
    let total: usize = params.total_nodes();
    let mut offers: Vec<(NodeId, NodeId)> = all_connections(total);
    let wishes: Vec<usize> = draw_wishes(params, rng);
    let mut counts: Vec<usize> = Vec::new();
    while counts.len() < total
        invariant
            counts@.len() <= total,
            forall|k: int| 0 <= k < counts@.len() ==> counts@[k] == 0,
        decreases total - counts@.len(),
    {
        counts.push(0);
    }
    rng.shuffle(&mut offers);
    let ghost all = offers@;
    let ghost mut links: Seq<(NodeId, NodeId)> = Seq::empty();
    let mut outbound: BTreeMap<NodeId, Vec<NodeId>> = BTreeMap::new();
    proof {
        lemma_connections(total as nat, total as nat);
        lemma_same_items(all, connections(total as nat, total as nat));
        assert(all == drawn_offers(params@).0);
        assert(dials_of(outbound@) =~= dials(links));
        assert(all.take(all.len() as int) =~= all);
    }
    while offers.len() > 0
        invariant
            total == params@.total_nodes,
            rng.seed == params@.seed,
            all == drawn_offers(params@).0,
            all.no_duplicates(),
            forall|pair: (NodeId, NodeId)| #[trigger]
                all.contains(pair) <==> pair.0 < pair.1 < total,
            offers@.len() <= all.len(),
            offers@ == all.take(offers@.len() as int),
            wishes@ == drawn_wishes(params@, total as nat).0,
            wishes@.len() == total,
            counts@.len() == total,
            connect(params@.seed, wishes@, offers@, links, rng.pos) == drawn_links(params@),
            forall|k: int|
                0 <= k < total ==> #[trigger] counts@[k] == degree(links, k as usize) && counts@[k]
                    <= wishes@[k],
            dials_of(outbound@) == dials(links),
            sound_links(links, total as nat),
            forall|k: int|
                0 <= k < links.len() ==> {
                    let link = #[trigger] links[k];
                    exists|m: int|
                        offers@.len() <= m < all.len() && (#[trigger] all[m] == link || all[m] == (
                            link.1,
                            link.0,
                        ))
                },
            forall|m: int|
                offers@.len() <= m < all.len() ==> {
                    let (a, b) = #[trigger] all[m];
                    linked(links, a, b) || degree(links, a) >= wishes@[a as int] || degree(
                        links,
                        b,
                    ) >= wishes@[b as int]
                },
        decreases offers@.len(),
    {
        let last: usize = offers.len() - 1;
        let a: NodeId = offers[last].0;
        let b: NodeId = offers[last].1;
        offers.truncate(last);
        let ghost place = offers@.len() as int;
        let ghost before = links;
        let ghost pos = rng.pos;
        proof {
            assert(all[place] == (a, b));
            assert(all.contains((a, b)));
            assert(offers@ =~= all.take(place));
            assert(offers@ =~= all.take(place + 1).drop_last());
            assert(all.take(place + 1).last() == (a, b));
        }
        if counts[a] < wishes[a] && counts[b] < wishes[b] {
            let from_a_to_b: bool = rng.gen_ratio(3, 5);
            let (from, to): (NodeId, NodeId) = if from_a_to_b {
                (a, b)
            } else {
                (b, a)
            };
            let mut peers: Vec<NodeId> = match outbound.remove(&from) {
                Some(peers) => peers,
                None => Vec::new(),
            };
            peers.push(to);
            outbound.insert(from, peers);
            counts.set(a, counts[a] + 1);
            counts.set(b, counts[b] + 1);
            proof {
                links = links.push((from, to));
                assert(links.drop_last() =~= before);
                assert(dials_of(outbound@) =~= dials(links));
                assert forall|k: int| 0 <= k < total implies #[trigger] counts@[k] == degree(
                    links,
                    k as usize,
                ) && counts@[k] <= wishes@[k] by {
                    lemma_degree_push(before, (from, to), k as usize);
                }
                lemma_linked_push(before, (from, to), a, b);
                assert forall|m: int| place <= m < all.len() implies ({
                    let (a, b) = #[trigger] all[m];
                    linked(links, a, b) || degree(links, a) >= wishes@[a as int] || degree(
                        links,
                        b,
                    ) >= wishes@[b as int]
                }) by {
                    let (c, d) = all[m];
                    lemma_degree_push(before, (from, to), c);
                    lemma_degree_push(before, (from, to), d);
                    if m > place && linked(before, c, d) {
                        lemma_linked_push(before, (from, to), c, d);
                    }
                }
                assert forall|k: int| 0 <= k < links.len() implies ({
                    let link = #[trigger] links[k];
                    exists|m: int|
                        place <= m < all.len() && (#[trigger] all[m] == link || all[m] == (
                            link.1,
                            link.0,
                        ))
                }) by {
                    if k < before.len() {
                        let link = before[k];
                        let m = choose|m: int|
                            place + 1 <= m < all.len() && (#[trigger] all[m] == link || all[m] == (
                                link.1,
                                link.0,
                            ));
                        assert(all[m] == link || all[m] == (link.1, link.0));
                    } else {
                        assert(all[place] == (a, b));
                    }
                }
                assert forall|k: int| 0 <= k < before.len() implies #[trigger] before[k] != (
                    from,
                    to,
                ) && before[k] != (to, from) by {
                    let link = before[k];
                    let m = choose|m: int|
                        place + 1 <= m < all.len() && (#[trigger] all[m] == link || all[m] == (
                            link.1,
                            link.0,
                        ));
                    assert(all.contains(all[m]));
                    assert(all[m] != all[place]);
                }
                assert forall|k: int, m: int|
                    0 <= k < m < links.len() implies #[trigger] links[k] != #[trigger] links[m]
                    && links[k] != (links[m].1, links[m].0) by {
                    if m < before.len() {
                        assert(before[k] != before[m]);
                    } else {
                        assert(before[k] != (from, to));
                    }
                }
            }
        } else {
            proof {
                assert(degree(links, a) == counts@[a as int]);
                assert(degree(links, b) == counts@[b as int]);
            }
        }
    }
    proof {
        assert(links == drawn_links(params@));
        assert forall|a: NodeId, b: NodeId| a < b < total implies #[trigger] linked(links, a, b)
            || degree(links, a) >= wishes@[a as int] || degree(links, b) >= wishes@[b as int] by {
            assert(all.contains((a, b)));
            let m = choose|m: int| 0 <= m < all.len() && all[m] == (a, b);
            assert(all[m] == (a, b));
        }
        assert forall|node: NodeId| node < total implies #[trigger] degree(links, node)
            <= wishes@[node as int] && params@.min_peers_per_node <= wishes@[node as int]
            <= params@.max_peers_per_node by {
            assert(counts@[node as int] == degree(links, node));
        }
    }
    let mut in_range: bool = true;
    let mut node: usize = 0;
    while node < total
        invariant
            total == params@.total_nodes,
            node <= total,
            counts@.len() == total,
            forall|k: int| 0 <= k < total ==> #[trigger] counts@[k] == degree(links, k as usize),
            in_range == forall|n: NodeId|
                n < node ==> params@.min_peers_per_node <= #[trigger] degree(links, n)
                    <= params@.max_peers_per_node,
        decreases total - node,
    {
        assert(counts@[node as int] == degree(links, node));
        if counts[node] < params.min_peers() || counts[node] > params.max_peers() {
            in_range = false;
        }
        node = node + 1;
    }
    (outbound, in_range)
}

} // verus!
