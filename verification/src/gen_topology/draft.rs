//! The random draws of a topology.
//!
//! All draws come from one generator, one after the other: where the validators are cut into
//! groups, the order of the validators, how many connections each node wants, the order in which
//! the possible connections are offered, and who dials on each connection that is made.

use super::{assigned_pairs, assigned_validators, ids, NodeId, Params, ParamsView, ValId};
use crate::ordered::{
    ascending, lemma_same_items, lemma_to_set_push, sort_ascending, sorted,
};
use crate::rng::{chacha8_choose, chacha8_shuffle, rearranged, SeededRng};
use std::collections::{BTreeMap, BTreeSet};
use vstd::prelude::*;

verus! {

/// The places at which the validators are cut, in drawing order, and where the generator stands
/// afterwards.
pub open spec fn drawn_cuts(params: ParamsView) -> (Seq<usize>, u128) {
    chacha8_choose(
        params.seed,
        0,
        ids(params.total_validators as nat),
        (params.total_nodes_with_vals - 1) as nat,
    )
}

/// The places at which the validators are cut, with both ends, ascending.
pub open spec fn cuts(params: ParamsView) -> Seq<usize> {
    sorted(drawn_cuts(params).0.push(params.total_validators).push(0))
}

/// The validators in random order, and where the generator stands afterwards.
pub open spec fn drawn_validators(params: ParamsView) -> (Seq<ValId>, u128) {
    let (order, pos) = chacha8_shuffle(
        params.seed,
        drawn_cuts(params).1,
        params.total_validators as nat,
    );
    (rearranged(ids(params.total_validators as nat), order), pos)
}

/// Each group of validators between two cuts goes to one node, the first group to the first node.
pub open spec fn drawn_assignments(params: ParamsView) -> Map<NodeId, Set<ValId>> {
    Map::new(
        |node: NodeId| node + 1 < cuts(params).len(),
        |node: NodeId|
            drawn_validators(params).0.subrange(
                cuts(params)[node as int] as int,
                cuts(params)[node + 1] as int,
            ).to_set(),
    )
}

/// The number of nodes that get a group of validators. Only the first of several groups can be
/// empty.
pub open spec fn groups(params: ParamsView) -> nat {
    if params.total_nodes_with_vals <= params.total_validators {
        params.total_nodes_with_vals as nat
    } else {
        (params.total_validators + 1) as nat
    }
}

/// What makes an assignment of validators complete: the groups go to the first nodes, and each
/// validator is run by exactly one node.
pub open spec fn complete_assignment(
    params: ParamsView,
    assigned: Map<NodeId, Set<ValId>>,
) -> bool {
    &&& forall|node: NodeId| #[trigger] assigned.contains_key(node) <==> node < groups(params)
    &&& forall|validator: ValId|
        #[trigger] assigned_validators(assigned).contains(validator) <==> validator
            < params.total_validators
    &&& forall|a: NodeId, b: NodeId, validator: ValId|
        #[trigger] assigned.contains_key(a) && #[trigger] assigned.contains_key(b)
            && #[trigger] assigned[a].contains(validator) && assigned[b].contains(validator) ==> a
            == b
}

/// Whether no group is empty, but for the first of several.
pub open spec fn filled_groups(params: ParamsView, assigned: Map<NodeId, Set<ValId>>) -> bool {
    forall|node: NodeId|
        (0 < node < groups(params) || (node == 0 && groups(params) == 1))
            ==> #[trigger] assigned[node] != Set::<ValId>::empty()
}

/// Ascending cuts that start at or below `place` and end above it have one cut at or below it whose
/// successor is above it.
proof fn lemma_cut_around(cuts: Seq<usize>, place: int) -> (k: int)
    requires
        cuts.len() >= 2,
        cuts[0] <= place < cuts.last(),
    ensures
        0 <= k < cuts.len() - 1,
        cuts[k] <= place < cuts[k + 1],
    decreases cuts.len(),
{
    if cuts.len() == 2 {
        0
    } else if cuts[cuts.len() - 2] <= place {
        cuts.len() - 2
    } else {
        lemma_cut_around(cuts.drop_last(), place)
    }
}

/// What holds of the sorted cuts.
spec fn good_cuts(cuts: Seq<usize>, total: usize) -> bool {
    &&& cuts.len() >= 2
    &&& ascending(cuts)
    &&& cuts[0] == 0
    &&& cuts.last() == total
    &&& forall|k: int| 0 <= k < cuts.len() ==> #[trigger] cuts[k] <= total
    &&& forall|j: int, k: int| 0 < j < k < cuts.len() ==> #[trigger] cuts[j] < #[trigger] cuts[k]
}

proof fn lemma_sorted_cuts(drawn: Seq<usize>, cuts: Seq<usize>, total: usize)
    requires
        0 < total,
        drawn.no_duplicates(),
        forall|k: int| 0 <= k < drawn.len() ==> #[trigger] drawn[k] < total,
        ascending(cuts),
        cuts.to_multiset() == drawn.push(total).push(0).to_multiset(),
    ensures
        good_cuts(cuts, total),
        cuts.len() == drawn.len() + 2,
{
    let all = drawn.push(total).push(0);
    lemma_same_items(cuts, all);
    assert forall|k: int| 0 <= k < cuts.len() implies #[trigger] cuts[k] <= total by {
        assert(cuts.contains(cuts[k]));
        assert(all.contains(cuts[k]));
        let m = choose|m: int| 0 <= m < all.len() && all[m] == cuts[k];
        if m < drawn.len() {
            assert(all[m] == drawn[m]);
        }
    }
    assert(all[drawn.len() as int] == total);
    assert(all[(drawn.len() + 1) as int] == 0);
    assert(all.contains(total) && all.contains(0));
    assert(cuts.contains(total) && cuts.contains(0));
    let m = choose|m: int| 0 <= m < cuts.len() && cuts[m] == 0;
    assert(cuts[0] <= cuts[m]);
    let m = choose|m: int| 0 <= m < cuts.len() && cuts[m] == total;
    assert(cuts[m] <= cuts[cuts.len() - 1]);
    lemma_later_cuts(drawn, cuts, total);
}

/// Behind the cut at the start no cut occurs twice.
proof fn lemma_later_cuts(drawn: Seq<usize>, cuts: Seq<usize>, total: usize)
    requires
        drawn.no_duplicates(),
        forall|k: int| 0 <= k < drawn.len() ==> #[trigger] drawn[k] < total,
        cuts.len() > 0,
        cuts[0] == 0,
        ascending(cuts),
        cuts.to_multiset() == drawn.push(total).push(0).to_multiset(),
    ensures
        forall|j: int, k: int|
            0 < j < k < cuts.len() ==> #[trigger] cuts[j] < #[trigger] cuts[k],
{
    let ends = drawn.push(total);
    let later = cuts.remove(0);
    cuts.to_multiset_ensures();
    ends.to_multiset_ensures();
    assert(later.to_multiset() =~= ends.to_multiset());
    lemma_same_items(later, ends);
    assert(ends.no_duplicates());
    assert forall|j: int, k: int| 0 < j < k < cuts.len() implies #[trigger] cuts[j]
        < #[trigger] cuts[k] by {
        assert(cuts[j] <= cuts[k]);
        assert(later[j - 1] == cuts[j] && later[k - 1] == cuts[k]);
    }
}

/// A rearrangement of the first numbers holds each of them once.
proof fn lemma_permutation(order: Seq<usize>, total: usize)
    requires
        order.to_multiset() == ids(total as nat).to_multiset(),
    ensures
        order.len() == total,
        order.no_duplicates(),
        forall|x: usize| #[trigger] order.contains(x) <==> x < total,
{
    let all = ids(total as nat);
    super::lemma_ids_set(total);
    lemma_same_items(order, all);
    assert forall|x: usize| #[trigger] order.contains(x) <==> x < total by {
        assert(all.to_set().contains(x) <==> x < total);
    }
}

/// The groups between good cuts of a permutation hold each validator once.
proof fn lemma_groups_partition(
    params: ParamsView,
    cuts: Seq<usize>,
    order: Seq<ValId>,
    assigned: Map<NodeId, Set<ValId>>,
)
    requires
        0 < params.total_validators,
        good_cuts(cuts, params.total_validators),
        cuts.len() == groups(params) + 1,
        order.to_multiset() == ids(params.total_validators as nat).to_multiset(),
        assigned == Map::new(
            |node: NodeId| node + 1 < cuts.len(),
            |node: NodeId|
                order.subrange(cuts[node as int] as int, cuts[node + 1] as int).to_set(),
        ),
    ensures
        complete_assignment(params, assigned),
        filled_groups(params, assigned),
{
    lemma_permutation(order, params.total_validators);
    assert forall|node: NodeId|
        (0 < node < groups(params) || (node == 0 && groups(params) == 1)) implies #[trigger]
        assigned[node] != Set::<ValId>::empty() by {
        let group = order.subrange(cuts[node as int] as int, cuts[node + 1] as int);
        assert(cuts[node as int] < cuts[node + 1]);
        assert(group.contains(group[0]));
        assert(assigned.contains_key(node));
        assert(assigned[node].contains(group[0]));
    }
    assert forall|node: NodeId, validator: ValId|
        assigned.contains_key(node) && #[trigger] assigned[node].contains(
            validator,
        ) implies exists|m: int|
        cuts[node as int] <= m < cuts[node + 1] && #[trigger] order[m] == validator by {
        let group = order.subrange(cuts[node as int] as int, cuts[node + 1] as int);
        assert(cuts[node as int] <= cuts[node + 1]);
        let g = choose|g: int| 0 <= g < group.len() && group[g] == validator;
        assert(order[cuts[node as int] + g] == validator);
    }
    assert forall|validator: ValId|
        validator < params.total_validators implies #[trigger] assigned_validators(
        assigned,
    ).contains(validator) by {
        assert(order.contains(validator));
        let m = choose|m: int| 0 <= m < order.len() && order[m] == validator;
        let k = lemma_cut_around(cuts, m);
        let group = order.subrange(cuts[k] as int, cuts[k + 1] as int);
        assert(group[m - cuts[k]] == validator);
        assert(assigned.contains_key(k as usize));
        assert(assigned[k as usize].contains(validator));
    }
    assert forall|validator: ValId| #[trigger]
        assigned_validators(assigned).contains(validator) implies validator
        < params.total_validators by {
        let node = choose|node: NodeId| #[trigger]
            assigned.contains_key(node) && assigned[node].contains(validator);
        let m = choose|m: int|
            cuts[node as int] <= m < cuts[node + 1] && #[trigger] order[m] == validator;
        assert(order.contains(order[m]));
    }
    assert forall|a: NodeId, b: NodeId, validator: ValId|
        #[trigger] assigned.contains_key(a) && #[trigger] assigned.contains_key(b)
            && #[trigger] assigned[a].contains(validator) && assigned[b].contains(
            validator,
        ) implies a == b by {
        let m = choose|m: int|
            cuts[a as int] <= m < cuts[a + 1] && #[trigger] order[m] == validator;
        let n = choose|n: int|
            cuts[b as int] <= n < cuts[b + 1] && #[trigger] order[n] == validator;
        assert(m == n);
        if a < b {
            assert(a + 1 == b || cuts[a + 1] <= cuts[b as int]);
        } else if b < a {
            assert(b + 1 == a || cuts[b + 1] <= cuts[a as int]);
        }
    }
}

/// The first `total` numbers.
fn numbers_below(total: usize) -> (numbers: Vec<usize>)
    ensures
        numbers@ == ids(total as nat),
{
    let mut numbers: Vec<usize> = Vec::new();
    let mut i: usize = 0;
    while i < total
        invariant
            i <= total,
            numbers@ == ids(i as nat),
        decreases total - i,
    {
        numbers.push(i);
        assert(numbers@ =~= ids((i + 1) as nat));
        i = i + 1;
    }
    numbers
}

/// The numbers of `order` from `start` up to, but not including, `end`.
fn group(order: &Vec<usize>, start: usize, end: usize) -> (members: BTreeSet<usize>)
    requires
        start <= end <= order@.len(),
    ensures
        members@ == order@.subrange(start as int, end as int).to_set(),
{
    let mut members: BTreeSet<usize> = BTreeSet::new();
    let mut i: usize = start;
    assert(members@ =~= order@.subrange(start as int, start as int).to_set());
    while i < end
        invariant
            start <= i <= end <= order@.len(),
            members@ == order@.subrange(start as int, i as int).to_set(),
        decreases end - i,
    {
        members.insert(order[i]);
        proof {
            lemma_to_set_push(order@.subrange(start as int, i as int), order@[i as int]);
            assert(order@.subrange(start as int, i + 1) =~= order@.subrange(
                start as int,
                i as int,
            ).push(order@[i as int]));
        }
        i = i + 1;
    }
    members
}

/// Cuts the validators into random groups and gives each group to a node.
pub(crate) fn assign_validators(params: &Params, rng: &mut SeededRng) -> (assignments: BTreeMap<
    NodeId,
    BTreeSet<ValId>,
>)
    requires
        params@.valid(),
        params@.total_nodes_with_vals > 0,
        params@.total_validators <= u32::MAX || params@.total_nodes_with_vals
            <= params@.total_validators,
        old(rng).seed == params@.seed,
        old(rng).pos == 0,
    ensures
        super::assignments_of(assignments@) == drawn_assignments(params@),
        complete_assignment(params@, drawn_assignments(params@)),
        filled_groups(params@, drawn_assignments(params@)),
        final(rng).seed == params@.seed,
        final(rng).pos == drawn_validators(params@).1,
{
    let total: usize = params.total_validators();
    let mut validators: Vec<usize> = numbers_below(total);
    let mut places: Vec<usize> = rng.choose_multiple(
        &validators,
        params.total_nodes_with_vals() - 1,
    );
    let ghost drawn = places@;
    proof {
        super::lemma_ids_set(total);
        assert forall|k: int| 0 <= k < drawn.len() implies #[trigger] drawn[k] < total by {
            assert(ids(total as nat).contains(drawn[k]));
        }
    }
    places.push(total);
    places.push(0);
    rng.shuffle(&mut validators);
    sort_ascending(&mut places);
    proof {
        lemma_sorted_cuts(drawn, places@, total);
        lemma_permutation(validators@, total);
        assert(places@ == cuts(params@));
        assert(validators@ == drawn_validators(params@).0);
    }
    let mut assignments: BTreeMap<NodeId, BTreeSet<ValId>> = BTreeMap::new();
    let mut node: usize = 0;
    while node < places.len() - 1
        invariant
            good_cuts(places@, total),
            validators@.len() == total,
            node <= places@.len() - 1,
            forall|n: NodeId| #[trigger] assignments@.contains_key(n) <==> n < node,
            forall|n: NodeId| n < node ==> (#[trigger] assignments@[n])@
                == validators@.subrange(places@[n as int] as int, places@[n + 1] as int).to_set(),
        decreases places@.len() - node,
    {
        assert(places@[node as int] <= places@[node + 1]);
        let members: BTreeSet<usize> = group(&validators, places[node], places[node + 1]);
        assignments.insert(node, members);
        node = node + 1;
    }
    proof {
        assert(super::assignments_of(assignments@) =~= drawn_assignments(params@));
        lemma_groups_partition(params@, places@, validators@, drawn_assignments(params@));
    }
    assignments
}

/// A complete assignment has as many pairs of a node and a validator as there are validators.
pub proof fn lemma_complete_assignment(params: ParamsView, assigned: Map<NodeId, Set<ValId>>)
    requires
        complete_assignment(params, assigned),
    ensures
        assigned_validators(assigned) == ids(params.total_validators as nat).to_set(),
        assigned_pairs(assigned).len() == params.total_validators,
{
    let all = ids(params.total_validators as nat).to_set();
    super::lemma_ids_set(params.total_validators);
    assert(assigned_validators(assigned) =~= all);
    let owner = |validator: ValId|
        choose|node: NodeId| #[trigger]
            assigned.contains_key(node) && assigned[node].contains(validator);
    let f = |validator: ValId| (owner(validator), validator);
    let pairs = assigned_pairs(assigned);
    assert forall|pair: (NodeId, ValId)| pairs.contains(pair) <==> #[trigger] all.map(
        f,
    ).contains(pair) by {
        if pairs.contains(pair) {
            assert(assigned_validators(assigned).contains(pair.1));
            assert(f(pair.1) == pair);
        }
        if all.map(f).contains(pair) {
            let validator = choose|validator: ValId| all.contains(validator) && f(validator) == pair;
            assert(assigned_validators(assigned).contains(validator));
        }
    }
    assert(all.map(f) =~= pairs);
    assert(vstd::relations::injective_on(f, all));
    vstd::set_lib::lemma_map_size(all, pairs, f);
}

} // verus!
