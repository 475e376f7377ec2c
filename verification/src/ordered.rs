//! Ordered sequences of numbers, and ordered walks over the standard collections.

use std::collections::{BTreeMap, BTreeSet};
use vstd::prelude::*;
use vstd::seq_lib::lemma_sorted_unique;
use vstd::std_specs::btree::increasing_seq;
use vstd::std_specs::cmp::OrdSpec;
use vstd::std_specs::iter::IteratorSpec;

verus! {

/// The numbers of `s` from the smallest to the largest.
pub open spec fn sorted(s: Seq<usize>) -> Seq<usize> {
    s.sort_by(|a: usize, b: usize| a <= b)
}

/// Whether each number is smaller than those behind it.
pub open spec fn increasing(s: Seq<usize>) -> bool {
    forall|i: int, j: int| 0 <= i < j < s.len() ==> s[i] < s[j]
}

/// Whether no number is larger than one behind it.
pub open spec fn ascending(s: Seq<usize>) -> bool {
    forall|i: int, j: int| 0 <= i < j < s.len() ==> s[i] <= s[j]
}

/// The members of a finite set, from the smallest to the largest.
pub open spec fn in_order(set: Set<usize>) -> Seq<usize> {
    choose|s: Seq<usize>| #[trigger] increasing(s) && s.to_set() == set
}

/// There is only one increasing sequence of the members of a set.
pub proof fn lemma_in_order(s: Seq<usize>)
    requires
        increasing(s),
    ensures
        in_order(s.to_set()) == s,
{
    lemma_increasing_unique(s, in_order(s.to_set()), |a: usize, b: usize| a < b);
}

/// There is only one sequence of the members of a set in which each comes before those that it is
/// less than.
proof fn lemma_increasing_unique<T>(a: Seq<T>, b: Seq<T>, less: spec_fn(T, T) -> bool)
    requires
        forall|x: T, y: T| #[trigger] less(x, y) ==> !less(y, x),
        forall|i: int, j: int| #![trigger a[i], a[j]] 0 <= i < j < a.len() ==> less(a[i], a[j]),
        forall|i: int, j: int| #![trigger b[i], b[j]] 0 <= i < j < b.len() ==> less(b[i], b[j]),
        a.to_set() == b.to_set(),
    ensures
        a == b,
    decreases a.len(),
{
    if a.len() == 0 {
        if b.len() > 0 {
            assert(b.to_set().contains(b[0]));
        }
        assert(a =~= b);
    } else {
        assert(a.to_set().contains(a.last()));
        assert(b.contains(a.last()));
        let k = choose|k: int| 0 <= k < b.len() && b[k] == a.last();
        assert(b.to_set().contains(b.last()));
        assert(a.contains(b.last()));
        let m = choose|m: int| 0 <= m < a.len() && a[m] == b.last();
        assert(a.last() == b.last());
        assert(a.drop_last().push(a.last()) =~= a);
        assert(b.drop_last().push(b.last()) =~= b);
        lemma_to_set_push(a.drop_last(), a.last());
        lemma_to_set_push(b.drop_last(), b.last());
        assert(!a.drop_last().contains(a.last()));
        assert(!b.drop_last().contains(b.last()));
        assert(a.drop_last().to_set() =~= a.to_set().remove(a.last()));
        assert(b.drop_last().to_set() =~= b.to_set().remove(b.last()));
        lemma_increasing_unique(a.drop_last(), b.drop_last(), less);
    }
}

/// A sequence in ascending order with the same numbers is the sorted sequence.
pub proof fn lemma_sorted_is(s: Seq<usize>, r: Seq<usize>)
    requires
        ascending(r),
        r.to_multiset() == s.to_multiset(),
    ensures
        sorted(s) == r,
{
    let leq = |a: usize, b: usize| a <= b;
    s.lemma_sort_by_ensures(leq);
    lemma_sorted_unique(sorted(s), r, leq);
}

/// Two sequences with the same items, in whatever order.
pub proof fn lemma_same_items<T>(a: Seq<T>, b: Seq<T>)
    requires
        a.to_multiset() == b.to_multiset(),
    ensures
        a.len() == b.len(),
        forall|x: T| #[trigger] a.contains(x) <==> b.contains(x),
        a.no_duplicates() <==> b.no_duplicates(),
{
    broadcast use vstd::seq_lib::group_to_multiset_ensures;

    assert(a.to_multiset().len() == a.len());
    assert(b.to_multiset().len() == b.len());
    assert forall|x: T| #[trigger] a.contains(x) <==> b.contains(x) by {
        assert(a.contains(x) <==> a.to_multiset().count(x) > 0);
        assert(b.contains(x) <==> b.to_multiset().count(x) > 0);
    }
    if a.no_duplicates() {
        a.lemma_multiset_has_no_duplicates();
        b.lemma_multiset_has_no_duplicates_conv();
    }
    if b.no_duplicates() {
        b.lemma_multiset_has_no_duplicates();
        a.lemma_multiset_has_no_duplicates_conv();
    }
}

/// Appending an item to a sequence adds it to the set of its items.
pub proof fn lemma_to_set_push<T>(s: Seq<T>, item: T)
    ensures
        s.push(item).to_set() == s.to_set().insert(item),
{
    assert forall|x: T| s.to_set().insert(item).contains(x) implies #[trigger] s.push(
        item,
    ).to_set().contains(x) by {
        if s.contains(x) {
            let i = choose|i: int| 0 <= i < s.len() && s[i] == x;
            assert(s.push(item)[i] == x);
        } else {
            assert(s.push(item)[s.len() as int] == x);
        }
    }
    assert(s.push(item).to_set() =~= s.to_set().insert(item));
}

/// Puts a vector into ascending order.
pub fn sort_ascending(items: &mut Vec<usize>)
    ensures
        final(items)@ == sorted(old(items)@),
        ascending(final(items)@),
        final(items)@.to_multiset() == old(items)@.to_multiset(),
{
    let len: usize = items.len();
    let mut i: usize = 0;
    while i < len
        invariant
            items@.len() == len,
            i <= len,
            forall|a: int, b: int| 0 <= a < b < i ==> items@[a] <= items@[b],
            items@.to_multiset() == old(items)@.to_multiset(),
        decreases len - i,
    {
        let mut j: usize = i;
        while j > 0 && items[j - 1] > items[j]
            invariant
                items@.len() == len,
                j <= i < len,
                items@.to_multiset() == old(items)@.to_multiset(),
                forall|a: int, b: int|
                    0 <= a < b <= i && b != j ==> items@[a] <= items@[b],
            decreases j,
        {
            let ghost before = items@;
            let low: usize = items[j];
            let high: usize = items[j - 1];
            items.set(j - 1, low);
            items.set(j, high);
            proof {
                let middle = before.update(j - 1, low);
                broadcast use vstd::seq_lib::group_to_multiset_ensures;

                vstd::seq_lib::to_multiset_update(before, j - 1, low);
                vstd::seq_lib::to_multiset_update(middle, j as int, high);
                assert(items@ =~= middle.update(j as int, high));
                assert(items@.to_multiset() =~= before.to_multiset());
            }
            j = j - 1;
        }
        i = i + 1;
    }
    proof {
        lemma_sorted_is(old(items)@, items@);
    }
}

/// An increasing walk over a standard collection visits smaller items first.
proof fn lemma_increasing_walk<T: Ord>(s: Seq<&T>)
    requires
        increasing_seq(s),
        vstd::laws_cmp::obeys_cmp::<&T>(),
    ensures
        forall|i: int, j: int|
            0 <= i < j < s.len() ==> OrdSpec::cmp_spec(#[trigger] &s[i], #[trigger] &s[j]) is Less,
{
    broadcast use vstd::std_specs::btree::axiom_increasing_seq_meaning;

}

/// The laws of the order of references to numbers.
proof fn lemma_number_order()
    ensures
        vstd::laws_cmp::obeys_cmp::<&usize>(),
        vstd::laws_cmp::obeys_cmp::<&u64>(),
{
    broadcast use {vstd::laws_eq::group_laws_eq, vstd::laws_cmp::group_laws_cmp};

    reveal(vstd::laws_eq::obeys_eq_spec_properties);
    reveal(vstd::laws_cmp::obeys_partial_cmp_spec_properties);
    reveal(vstd::laws_cmp::obeys_cmp_partial_ord);
    reveal(vstd::laws_cmp::obeys_cmp_ord);
    assert(vstd::laws_eq::obeys_eq::<&usize>());
    assert(vstd::laws_eq::obeys_eq::<&u64>());
}

/// The members of a set, from the smallest to the largest.
pub fn sorted_items(set: &BTreeSet<usize>) -> (items: Vec<usize>)
    ensures
        items@ == in_order(set@),
        increasing(items@),
        items@.to_set() == set@,
        items@.len() == set@.len(),
        set@.finite(),
{
    let mut items: Vec<usize> = Vec::new();
    let walk = set.iter();
    let ghost all: Seq<&usize> = walk.remaining();
    for x in it: walk
        invariant
            items@.len() == it.index(),
            it.seq() == all,
            forall|i: int| 0 <= i < items@.len() ==> items@[i] == *it.seq()[i],
    {
        items.push(*x);
    }
    proof {
        assert(items@ =~= all.unref());
        lemma_number_order();
        lemma_increasing_walk(all);
        lemma_in_order(items@);
        items@.unique_seq_to_set();
        vstd::seq_lib::seq_to_set_is_finite(items@);
    }
    items
}

/// The keys of a map, from the smallest to the largest.
pub fn sorted_keys<V>(map: &BTreeMap<usize, V>) -> (keys: Vec<usize>)
    ensures
        keys@ == in_order(map@.dom()),
        increasing(keys@),
        keys@.to_set() == map@.dom(),
        keys@.len() == map@.dom().len(),
        map@.dom().finite(),
{
    let mut keys: Vec<usize> = Vec::new();
    let walk = map.keys();
    let ghost all: Seq<&usize> = walk.remaining();
    for k in it: walk
        invariant
            keys@.len() == it.index(),
            it.seq() == all,
            forall|i: int| 0 <= i < keys@.len() ==> keys@[i] == *it.seq()[i],
    {
        keys.push(*k);
    }
    proof {
        assert(keys@ =~= all.unref());
        lemma_number_order();
        lemma_increasing_walk(all);
        lemma_in_order(keys@);
    }
    keys
}

/// Whether each wide number is smaller than those behind it.
pub open spec fn increasing_u64(s: Seq<u64>) -> bool {
    forall|i: int, j: int| 0 <= i < j < s.len() ==> s[i] < s[j]
}

/// The members of a finite set of wide numbers, from the smallest to the largest.
pub open spec fn in_order_u64(set: Set<u64>) -> Seq<u64> {
    choose|s: Seq<u64>| #[trigger] increasing_u64(s) && s.to_set() == set
}

/// There is only one increasing sequence of the members of a set of wide numbers.
pub proof fn lemma_in_order_u64(s: Seq<u64>)
    requires
        increasing_u64(s),
    ensures
        in_order_u64(s.to_set()) == s,
{
    lemma_increasing_unique(s, in_order_u64(s.to_set()), |a: u64, b: u64| a < b);
}

/// The keys of a map from wide numbers, from the smallest to the largest.
pub fn sorted_keys_u64<V>(map: &BTreeMap<u64, V>) -> (keys: Vec<u64>)
    ensures
        keys@ == in_order_u64(map@.dom()),
        increasing_u64(keys@),
        keys@.to_set() == map@.dom(),
{
    let mut keys: Vec<u64> = Vec::new();
    let walk = map.keys();
    let ghost all: Seq<&u64> = walk.remaining();
    for k in it: walk
        invariant
            keys@.len() == it.index(),
            it.seq() == all,
            forall|i: int| 0 <= i < keys@.len() ==> keys@[i] == *it.seq()[i],
    {
        keys.push(*k);
    }
    proof {
        assert(keys@ =~= all.unref());
        lemma_number_order();
        lemma_increasing_walk(all);
        assert(increasing_u64(keys@));
        lemma_in_order_u64(keys@);
    }
    keys
}

} // verus!
