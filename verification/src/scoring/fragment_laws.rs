//! What holds of the fragments of a message.

use super::fragment::{
    control_items, fragments, items_fit, opened, padded, placed, placed_all, plain_items,
    publish_items, subscription_items, ItemView,
};
use super::rpc::{
    field_size, varint_len, ControlGraft, ControlIHave, ControlIWant, ControlPrune, ControlView,
    Encoded, PublishedMessage, RpcView, SubOpts,
};
use vstd::prelude::*;

verus! {

/// What some messages hold together, in sending order.
#[verifier::ext_equal]
pub struct Contents {
    pub subscriptions: Seq<SubOpts>,
    pub publish: Seq<PublishedMessage>,
    pub ihave: Seq<ControlIHave>,
    pub iwant: Seq<ControlIWant>,
    pub graft: Seq<ControlGraft>,
    pub prune: Seq<ControlPrune>,
}

impl Contents {
    /// Nothing.
    pub open spec fn empty() -> Contents {
        Contents {
            subscriptions: Seq::empty(),
            publish: Seq::empty(),
            ihave: Seq::empty(),
            iwant: Seq::empty(),
            graft: Seq::empty(),
            prune: Seq::empty(),
        }
    }

    /// What a message holds.
    pub open spec fn of(rpc: RpcView) -> Contents {
        Contents {
            subscriptions: rpc.subscriptions,
            publish: rpc.publish,
            ihave: rpc.controls().ihave,
            iwant: rpc.controls().iwant,
            graft: rpc.controls().graft,
            prune: rpc.controls().prune,
        }
    }

    /// This, followed by `other`.
    pub open spec fn followed_by(self, other: Contents) -> Contents {
        Contents {
            subscriptions: self.subscriptions + other.subscriptions,
            publish: self.publish + other.publish,
            ihave: self.ihave + other.ihave,
            iwant: self.iwant + other.iwant,
            graft: self.graft + other.graft,
            prune: self.prune + other.prune,
        }
    }

    /// What an item holds.
    spec fn of_item(item: ItemView) -> Contents {
        Contents::of(RpcView::empty().with(item))
    }

    /// What some items hold.
    spec fn of_items(items: Seq<ItemView>) -> Contents
        decreases items.len(),
    {
        if items.len() == 0 {
            Contents::empty()
        } else {
            Contents::of_items(items.drop_last()).followed_by(Contents::of_item(items.last()))
        }
    }
}

/// What some messages hold together.
pub open spec fn gathered(list: Seq<RpcView>) -> Contents
    decreases list.len(),
{
    if list.len() == 0 {
        Contents::empty()
    } else {
        gathered(list.drop_last()).followed_by(Contents::of(list.last()))
    }
}

/// Whether no message holds control messages.
spec fn without_control(list: Seq<RpcView>) -> bool {
    forall|i: int| 0 <= i < list.len() ==> (#[trigger] list[i]).control is None
}

proof fn lemma_followed_by_assoc(a: Contents, b: Contents, c: Contents)
    ensures
        a.followed_by(b).followed_by(c) == a.followed_by(b.followed_by(c)),
        a.followed_by(Contents::empty()) == a,
        Contents::empty().followed_by(a) == a,
{
    assert(a.followed_by(b).followed_by(c) =~= a.followed_by(b.followed_by(c)));
    assert(a.followed_by(Contents::empty()) =~= a);
    assert(Contents::empty().followed_by(a) =~= a);
}

proof fn lemma_with(rpc: RpcView, item: ItemView)
    requires
        item is Control ==> rpc.control is None,
    ensures
        Contents::of(rpc.with(item)) == Contents::of(rpc).followed_by(Contents::of_item(item)),
{
    assert(Contents::of(rpc.with(item)) =~= Contents::of(rpc).followed_by(
        Contents::of_item(item),
    ));
}

proof fn lemma_placed(list: Seq<RpcView>, item: ItemView, max: nat)
    requires
        list.len() > 0,
        item is Control ==> list.last().control is None,
    ensures
        placed(list, item, max).len() > 0,
        gathered(placed(list, item, max)) == gathered(list).followed_by(Contents::of_item(item)),
        item.is_plain() && without_control(list) ==> without_control(placed(list, item, max)),
{
    let open = opened(list, item.size(), max);
    let result = placed(list, item, max);
    if open != list {
        assert(open.drop_last() =~= list);
        assert(Contents::of(RpcView::empty()) =~= Contents::empty());
        lemma_followed_by_assoc(gathered(list), Contents::empty(), Contents::empty());
        assert(gathered(open) == gathered(list));
    }
    assert(result.drop_last() =~= open.drop_last());
    assert(result.last() == open.last().with(item));
    lemma_with(open.last(), item);
    lemma_followed_by_assoc(
        gathered(open.drop_last()),
        Contents::of(open.last()),
        Contents::of_item(item),
    );
    if item.is_plain() && without_control(list) {
        assert forall|i: int| 0 <= i < result.len() implies (#[trigger] result[i]).control
            is None by {
            assert(list[list.len() - 1].control is None);
            if i < result.len() - 1 {
                assert(result[i] == open[i]);
                assert(open[i] == list[i]);
            }
        }
    }
}

/// Items of which only the last one may be a block of control messages.
proof fn lemma_placed_all(list: Seq<RpcView>, items: Seq<ItemView>, max: nat)
    requires
        list.len() > 0,
        without_control(list),
        forall|i: int| 0 <= i < items.len() - 1 && items.last() is Control ==> (
        #[trigger] items[i]).is_plain(),
        forall|i: int| 0 <= i < items.len() - 1 ==> !((#[trigger] items[i]) is Control),
    ensures
        placed_all(list, items, max).len() > 0,
        gathered(placed_all(list, items, max)) == gathered(list).followed_by(
            Contents::of_items(items),
        ),
        (forall|i: int| 0 <= i < items.len() ==> (#[trigger] items[i]).is_plain())
            ==> without_control(placed_all(list, items, max)),
    decreases items.len(),
{
    if items.len() == 0 {
        lemma_followed_by_assoc(gathered(list), Contents::empty(), Contents::empty());
    } else {
        let before = items.drop_last();
        lemma_placed_all(list, before, max);
        let head = placed_all(list, before, max);
        if items.last() is Control {
            assert(forall|i: int| 0 <= i < before.len() ==> (#[trigger] before[i]).is_plain());
            assert(head[head.len() - 1].control is None);
        }
        lemma_placed(head, items.last(), max);
        lemma_followed_by_assoc(
            gathered(list),
            Contents::of_items(before),
            Contents::of_item(items.last()),
        );
        if forall|i: int| 0 <= i < items.len() ==> (#[trigger] items[i]).is_plain() {
            assert forall|i: int| 0 <= i < before.len() implies (
            #[trigger] before[i]).is_plain() by {
                assert(items[i].is_plain());
            }
            assert(items[items.len() - 1].is_plain());
        }
    }
}

proof fn lemma_of_items_concat(a: Seq<ItemView>, b: Seq<ItemView>)
    ensures
        Contents::of_items(a + b) == Contents::of_items(a).followed_by(Contents::of_items(b)),
    decreases b.len(),
{
    if b.len() == 0 {
        assert(a + b =~= a);
        lemma_followed_by_assoc(Contents::of_items(a), Contents::empty(), Contents::empty());
    } else {
        assert((a + b).drop_last() =~= a + b.drop_last());
        lemma_of_items_concat(a, b.drop_last());
        lemma_followed_by_assoc(
            Contents::of_items(a),
            Contents::of_items(b.drop_last()),
            Contents::of_item(b.last()),
        );
    }
}

proof fn lemma_of_publish(publish: Seq<PublishedMessage>)
    ensures
        Contents::of_items(publish_items(publish)) == (Contents { publish, ..Contents::empty() }),
    decreases publish.len(),
{
    if publish.len() > 0 {
        lemma_of_publish(publish.drop_last());
        assert(publish_items(publish).drop_last() =~= publish_items(publish.drop_last()));
    }
    assert(Contents::of_items(publish_items(publish)) =~= (Contents {
        publish,
        ..Contents::empty()
    }));
}

proof fn lemma_of_subscriptions(subscriptions: Seq<SubOpts>)
    ensures
        Contents::of_items(subscription_items(subscriptions)) == (Contents {
            subscriptions,
            ..Contents::empty()
        }),
    decreases subscriptions.len(),
{
    let items = subscription_items(subscriptions);
    if subscriptions.len() > 0 {
        lemma_of_subscriptions(subscriptions.drop_last());
        assert(items.drop_last() =~= subscription_items(subscriptions.drop_last()));
    }
    assert(Contents::of_items(items) =~= (Contents { subscriptions, ..Contents::empty() }));
}

proof fn lemma_of_ihave(ihave: Seq<ControlIHave>)
    ensures
        Contents::of_items(ihave.map_values(|x: ControlIHave| ItemView::IHave(x))) == (Contents {
            ihave,
            ..Contents::empty()
        }),
    decreases ihave.len(),
{
    let f = |x: ControlIHave| ItemView::IHave(x);
    let items = ihave.map_values(f);
    if ihave.len() > 0 {
        lemma_of_ihave(ihave.drop_last());
        assert(items.drop_last() =~= ihave.drop_last().map_values(f));
    }
    assert(Contents::of_items(items) =~= (Contents { ihave, ..Contents::empty() }));
}

proof fn lemma_of_iwant(iwant: Seq<ControlIWant>)
    ensures
        Contents::of_items(iwant.map_values(|x: ControlIWant| ItemView::IWant(x))) == (Contents {
            iwant,
            ..Contents::empty()
        }),
    decreases iwant.len(),
{
    let f = |x: ControlIWant| ItemView::IWant(x);
    let items = iwant.map_values(f);
    if iwant.len() > 0 {
        lemma_of_iwant(iwant.drop_last());
        assert(items.drop_last() =~= iwant.drop_last().map_values(f));
    }
    assert(Contents::of_items(items) =~= (Contents { iwant, ..Contents::empty() }));
}

proof fn lemma_of_graft(graft: Seq<ControlGraft>)
    ensures
        Contents::of_items(graft.map_values(|x: ControlGraft| ItemView::Graft(x))) == (Contents {
            graft,
            ..Contents::empty()
        }),
    decreases graft.len(),
{
    let f = |x: ControlGraft| ItemView::Graft(x);
    let items = graft.map_values(f);
    if graft.len() > 0 {
        lemma_of_graft(graft.drop_last());
        assert(items.drop_last() =~= graft.drop_last().map_values(f));
    }
    assert(Contents::of_items(items) =~= (Contents { graft, ..Contents::empty() }));
}

proof fn lemma_of_prune(prune: Seq<ControlPrune>)
    ensures
        Contents::of_items(prune.map_values(|x: ControlPrune| ItemView::Prune(x))) == (Contents {
            prune,
            ..Contents::empty()
        }),
    decreases prune.len(),
{
    let f = |x: ControlPrune| ItemView::Prune(x);
    let items = prune.map_values(f);
    if prune.len() > 0 {
        lemma_of_prune(prune.drop_last());
        assert(items.drop_last() =~= prune.drop_last().map_values(f));
    }
    assert(Contents::of_items(items) =~= (Contents { prune, ..Contents::empty() }));
}

/// What the control items of a message hold.
proof fn lemma_of_controls(rpc: RpcView, max: nat)
    ensures
        Contents::of_items(control_items(rpc.control, max)) == (Contents {
            subscriptions: Seq::empty(),
            publish: Seq::empty(),
            ..Contents::of(rpc)
        }),
{
    let items = control_items(rpc.control, max);
    let goal = Contents { subscriptions: Seq::empty(), publish: Seq::empty(), ..Contents::of(rpc) };
    match rpc.control {
        Some(control) => {
            if control.size() + 2 > max {
                let a = control.ihave.map_values(|x: ControlIHave| ItemView::IHave(x));
                let b = control.iwant.map_values(|x: ControlIWant| ItemView::IWant(x));
                let c = control.graft.map_values(|x: ControlGraft| ItemView::Graft(x));
                let d = control.prune.map_values(|x: ControlPrune| ItemView::Prune(x));
                lemma_of_items_concat(a, b);
                lemma_of_items_concat(a + b, c);
                lemma_of_items_concat(a + b + c, d);
                lemma_of_ihave(control.ihave);
                lemma_of_iwant(control.iwant);
                lemma_of_graft(control.graft);
                lemma_of_prune(control.prune);
                assert(Contents::of_items(items) =~= goal);
            } else {
                reveal_with_fuel(Contents::of_items, 2);
                let one = seq![ItemView::Control(control)];
                assert(one.drop_last() =~= Seq::empty());
                assert(Contents::of_items(one) =~= goal);
            }
        },
        None => {
            assert(Contents::of_items(items) =~= goal);
        },
    }
}

/// Fragments hold what the message held: nothing is lost, added or reordered.
pub proof fn fragments_keep_everything(rpc: RpcView, max: nat)
    requires
        fragments(rpc, max) is Ok,
    ensures
        gathered(fragments(rpc, max)->Ok_0) == Contents::of(rpc),
{
    let list = fragments(rpc, max)->Ok_0;
    reveal_with_fuel(gathered, 2);
    if rpc.size() < max {
        assert(list.drop_last() =~= Seq::empty());
        lemma_followed_by_assoc(Contents::of(rpc), Contents::empty(), Contents::empty());
    } else {
        let start = seq![RpcView::empty()];
        let plain = plain_items(rpc);
        let controls = control_items(rpc.control, max);
        let items = plain + controls;
        lemma_control_order(rpc, max);
        lemma_placed_all(start, items, max);
        lemma_of_items_concat(plain, controls);
        lemma_of_items_concat(
            publish_items(rpc.publish),
            subscription_items(rpc.subscriptions),
        );
        lemma_of_publish(rpc.publish);
        lemma_of_subscriptions(rpc.subscriptions);
        lemma_of_controls(rpc, max);
        assert(start.drop_last() =~= Seq::empty());
        assert(gathered(start) =~= Contents::empty());
        lemma_followed_by_assoc(Contents::of_items(items), Contents::empty(), Contents::empty());
        assert(gathered(list) =~= Contents::of(rpc));
    }
}

/// Messages that together hold nothing published each hold none, and so with subscriptions.
pub proof fn lemma_gathered_plain(list: Seq<RpcView>, i: int)
    requires
        0 <= i < list.len(),
    ensures
        gathered(list).publish.len() == 0 ==> list[i].publish.len() == 0,
        gathered(list).subscriptions.len() == 0 ==> list[i].subscriptions.len() == 0,
    decreases list.len(),
{
    if i < list.len() - 1 {
        lemma_gathered_plain(list.drop_last(), i);
    }
}

/// A block of control messages stands behind plain items only.
proof fn lemma_control_order(rpc: RpcView, max: nat)
    ensures
        ({
            let items = plain_items(rpc) + control_items(rpc.control, max);
            &&& forall|i: int|
                0 <= i < items.len() - 1 && items.last() is Control ==> (
                #[trigger] items[i]).is_plain()
            &&& forall|i: int| 0 <= i < items.len() - 1 ==> !((#[trigger] items[i]) is Control)
        }),
        forall|i: int|
            0 <= i < plain_items(rpc).len() ==> (#[trigger] plain_items(rpc)[i]).is_plain(),
{
}

/// Whether all messages but the last hold something.
spec fn filled_but_last(list: Seq<RpcView>) -> bool {
    forall|i: int| 0 <= i < list.len() - 1 ==> #[trigger] list[i] != RpcView::empty()
}

proof fn lemma_with_is_filled(rpc: RpcView, item: ItemView)
    ensures
        rpc.with(item) != RpcView::empty(),
{
    match item {
        ItemView::Publish(x) => {
            assert(rpc.with(item).publish.len() > 0);
        },
        ItemView::Subscription(x) => {
            assert(rpc.with(item).subscriptions.len() > 0);
        },
        _ => {
            assert(rpc.with(item).control is Some);
        },
    }
}

proof fn lemma_placed_all_filled(list: Seq<RpcView>, items: Seq<ItemView>, max: nat)
    requires
        list.len() > 0,
        filled_but_last(list),
    ensures
        placed_all(list, items, max).len() > 0,
        filled_but_last(placed_all(list, items, max)),
        items.len() > 0 ==> placed_all(list, items, max).last() != RpcView::empty(),
    decreases items.len(),
{
    if items.len() > 0 {
        lemma_placed_all_filled(list, items.drop_last(), max);
        let before = placed_all(list, items.drop_last(), max);
        let open = opened(before, items.last().size(), max);
        let after = placed(before, items.last(), max);
        lemma_with_is_filled(open.last(), items.last());
        assert forall|i: int| 0 <= i < after.len() - 1 implies #[trigger] after[i]
            != RpcView::empty() by {
            assert(after[i] == open[i]);
            assert(open[i] == before[i]);
        }
    }
}

/// No fragment is empty.
pub proof fn fragments_are_filled(rpc: RpcView, max: nat)
    requires
        fragments(rpc, max) is Ok,
        rpc.size() >= max >= 2,
    ensures
        forall|i: int|
            0 <= i < fragments(rpc, max)->Ok_0.len() ==> #[trigger] fragments(rpc, max)->Ok_0[i]
                != RpcView::empty(),
{
    let items = plain_items(rpc) + control_items(rpc.control, max);
    let start = seq![RpcView::empty()];
    lemma_placed_all_filled(start, items, max);
    if items.len() == 0 {
        assert(publish_items(rpc.publish).len() == 0);
        assert(subscription_items(rpc.subscriptions).len() == 0);
        assert(control_items(rpc.control, max).len() == 0);
    }
}

proof fn lemma_varint_len_bound(n: nat)
    ensures
        1 <= varint_len(n) <= 1 + n / 100,
    decreases n,
{
    if n >= 128 {
        lemma_varint_len_bound(n / 128);
    }
}

proof fn lemma_varint_len_monotone(a: nat, b: nat)
    requires
        a <= b,
    ensures
        varint_len(a) <= varint_len(b),
    decreases b,
{
    lemma_varint_len_bound(b);
    if a >= 128 {
        lemma_varint_len_monotone(a / 128, b / 128);
    }
}

/// Whether each message without control messages exceeds the limit by at most the bytes that the
/// limit itself takes.
spec fn nearly_fits(list: Seq<RpcView>, max: nat) -> bool {
    forall|i: int|
        0 <= i < list.len() && (#[trigger] list[i]).control is None ==> list[i].size() <= max
            + varint_len(max)
}

proof fn lemma_with_plain(rpc: RpcView, item: ItemView)
    requires
        item.is_plain(),
    ensures
        rpc.with(item).size() == rpc.size() + field_size(item.size()),
{
    match item {
        ItemView::Publish(x) => {
            assert(rpc.publish.push(x).drop_last() =~= rpc.publish);
        },
        ItemView::Subscription(x) => {
            assert(rpc.subscriptions.push(x).drop_last() =~= rpc.subscriptions);
        },
        _ => {},
    }
}

proof fn lemma_placed_all_nearly_fits(list: Seq<RpcView>, items: Seq<ItemView>, max: nat)
    requires
        list.len() > 0,
        max >= 128,
        nearly_fits(list, max),
        forall|i: int|
            0 <= i < items.len() && (#[trigger] items[i]).is_plain() ==> items[i].size() + 2
                <= max,
    ensures
        placed_all(list, items, max).len() > 0,
        nearly_fits(placed_all(list, items, max), max),
    decreases items.len(),
{
    if items.len() > 0 {
        let item = items.last();
        assert(items[items.len() - 1] == item);
        assert forall|i: int|
            0 <= i < items.drop_last().len() && (
            #[trigger] items.drop_last()[i]).is_plain() implies items.drop_last()[i].size() + 2
            <= max by {
            assert(items[i].is_plain());
        }
        lemma_placed_all_nearly_fits(list, items.drop_last(), max);
        let before = placed_all(list, items.drop_last(), max);
        let open = opened(before, item.size(), max);
        let after = placed(before, item, max);
        assert forall|i: int| 0 <= i < after.len() && (#[trigger] after[i]).control
            is None implies after[i].size() <= max + varint_len(max) by {
            if i < after.len() - 1 {
                assert(after[i] == open[i]);
                assert(open[i] == before[i]);
            } else {
                assert(item.is_plain());
                lemma_with_plain(open.last(), item);
                lemma_varint_len_bound(item.size());
                lemma_varint_len_bound(max / 128);
                lemma_varint_len_monotone(item.size(), max);
                if open.last() == RpcView::empty() {
                    assert(open.last().size() == 0);
                } else {
                    assert(open.last().size() + padded(item.size()) <= max);
                }
            }
        }
    }
}

/// A sum takes at most as many bytes as its numbers do together, and at most one more than the larger.
proof fn lemma_varint_len_sum(a: nat, b: nat)
    ensures
        varint_len(a + b) <= varint_len(a) + varint_len(b),
        b <= a ==> varint_len(a + b) <= 1 + varint_len(a),
{
    let larger = if a >= b {
        a
    } else {
        b
    };
    let half = 2 * larger / 128;
    lemma_varint_len_bound(a);
    lemma_varint_len_bound(b);
    lemma_varint_len_monotone(a + b, 2 * larger);
    if 2 * larger >= 128 {
        lemma_varint_len_monotone(half, larger);
    }
}

/// The bytes that an item adds to control messages, and those that they take beside it, are at most
/// four more than the padded size.
proof fn lemma_control_overhead(before: nat, size: nat)
    ensures
        field_size(before + field_size(size)) <= field_size(before) + padded(size) + 4,
        field_size(field_size(size)) <= padded(size) + 4,
{
    let added = field_size(size);
    lemma_varint_len_sum(before, added);
    lemma_varint_len_bound(size);
    lemma_varint_len_bound(added);
}

/// An item adds at most four bytes more than its padded size.
proof fn lemma_with_overhead(rpc: RpcView, item: ItemView)
    ensures
        rpc.with(item).size() <= rpc.size() + padded(item.size()) + 4,
{
    let controls = rpc.controls();
    lemma_varint_len_bound(item.size());
    lemma_control_overhead(controls.size(), item.size());
    match item {
        ItemView::Publish(_) | ItemView::Subscription(_) => {
            lemma_with_plain(rpc, item);
        },
        ItemView::IHave(x) => {
            assert(controls.ihave.push(x).drop_last() =~= controls.ihave);
        },
        ItemView::IWant(x) => {
            assert(controls.iwant.push(x).drop_last() =~= controls.iwant);
        },
        ItemView::Graft(x) => {
            assert(controls.graft.push(x).drop_last() =~= controls.graft);
        },
        ItemView::Prune(x) => {
            assert(controls.prune.push(x).drop_last() =~= controls.prune);
        },
        ItemView::Control(_) => {},
    }
}

/// Whether each item in a message of its own is of a size of at most `bound`.
pub open spec fn alone_within(items: Seq<ItemView>, bound: nat) -> bool {
    forall|i: int|
        0 <= i < items.len() ==> RpcView::empty().with(#[trigger] items[i]).size() <= bound
}

/// Whether each message is of a size of at most `bound`.
pub open spec fn all_within(list: Seq<RpcView>, bound: nat) -> bool {
    forall|i: int| 0 <= i < list.len() ==> (#[trigger] list[i]).size() <= bound
}

proof fn lemma_placed_all_within(
    list: Seq<RpcView>,
    items: Seq<ItemView>,
    max: nat,
    bound: nat,
)
    requires
        list.len() > 0,
        max + 4 <= bound,
        all_within(list, bound),
        alone_within(items, bound),
    ensures
        placed_all(list, items, max).len() > 0,
        all_within(placed_all(list, items, max), bound),
    decreases items.len(),
{
    if items.len() > 0 {
        let item = items[items.len() - 1];
        assert forall|i: int| 0 <= i < items.drop_last().len() implies RpcView::empty().with(
            #[trigger] items.drop_last()[i],
        ).size() <= bound by {
            assert(items.drop_last()[i] == items[i]);
        }
        lemma_placed_all_within(list, items.drop_last(), max, bound);
        let before = placed_all(list, items.drop_last(), max);
        let open = opened(before, item.size(), max);
        let after = placed(before, item, max);
        assert forall|i: int| 0 <= i < after.len() implies (#[trigger] after[i]).size()
            <= bound by {
            if i < after.len() - 1 {
                assert(after[i] == open[i]);
                assert(open[i] == before[i]);
            } else if open.last() != RpcView::empty() {
                lemma_with_overhead(open.last(), item);
            }
        }
    }
}

/// No fragment is larger than four bytes above the limit, or than the largest item in a message of its
/// own, whichever is more.
pub proof fn fragments_stay_within(rpc: RpcView, max: nat, bound: nat)
    requires
        fragments(rpc, max) is Ok,
        max + 4 <= bound,
        alone_within(plain_items(rpc), bound),
        alone_within(control_items(rpc.control, max), bound),
    ensures
        all_within(fragments(rpc, max)->Ok_0, bound),
{
    if rpc.size() >= max {
        let plain = plain_items(rpc);
        let controls = control_items(rpc.control, max);
        let items = plain + controls;
        assert forall|i: int| 0 <= i < items.len() implies RpcView::empty().with(
            #[trigger] items[i],
        ).size() <= bound by {
            if i < plain.len() {
                assert(items[i] == plain[i]);
            } else {
                assert(items[i] == controls[i - plain.len()]);
            }
        }
        let start = seq![RpcView::empty()];
        assert(start[0].size() == 0);
        lemma_placed_all_within(start, items, max, bound);
    }
}

/// The size of an item that fits, in a message of its own.
proof fn lemma_alone_size(item: ItemView, max: nat)
    requires
        item.size() + 2 <= max,
    ensures
        RpcView::empty().with(item).size() <= max + 2 * varint_len(max) + 1,
        item.is_plain() || item is Control ==> RpcView::empty().with(item).size() <= max
            + varint_len(max),
{
    let empty = RpcView::empty();
    let none = ControlView::empty();
    let added = field_size(item.size());
    lemma_varint_len_bound(max);
    lemma_varint_len_monotone(item.size(), max);
    lemma_varint_len_sum(max, max);
    assert(none.size() == 0);
    assert(empty.size() == 0);
    if item.is_plain() {
        lemma_with_plain(empty, item);
    } else if !(item is Control) {
        assert(added <= 2 * max);
        lemma_varint_len_monotone(added, 2 * max);
        assert(empty.controls() == none);
        match item {
            ItemView::IHave(x) => {
                assert(none.ihave.push(x).drop_last() =~= none.ihave);
            },
            ItemView::IWant(x) => {
                assert(none.iwant.push(x).drop_last() =~= none.iwant);
            },
            ItemView::Graft(x) => {
                assert(none.graft.push(x).drop_last() =~= none.graft);
            },
            ItemView::Prune(x) => {
                assert(none.prune.push(x).drop_last() =~= none.prune);
            },
            _ => {},
        }
    }
}

/// How far a fragment may exceed the limit: by the bytes that the limit itself takes as a length
/// prefix, or by four where it takes fewer.
pub open spec fn slack(max: nat) -> nat {
    if varint_len(max) >= 4 {
        varint_len(max)
    } else {
        4
    }
}

/// A fragment without control messages exceeds the limit by at most the bytes that the limit itself
/// takes as a length prefix. Where each control item alone is a message that stays within the limit
/// and the slack, every fragment does. Where each control item leaves two bytes of the limit free,
/// every fragment exceeds the limit by at most twice the bytes of its length prefix, and one.
pub proof fn fragments_nearly_fit(rpc: RpcView, max: nat)
    requires
        fragments(rpc, max) is Ok,
        max >= 128,
    ensures
        forall|i: int|
            0 <= i < fragments(rpc, max)->Ok_0.len() && (#[trigger] fragments(
                rpc,
                max,
            )->Ok_0[i]).control is None ==> fragments(rpc, max)->Ok_0[i].size() <= max
                + varint_len(max),
        alone_within(control_items(rpc.control, max), max + slack(max)) ==> all_within(
            fragments(rpc, max)->Ok_0,
            max + slack(max),
        ),
        items_fit(control_items(rpc.control, max), max) ==> all_within(
            fragments(rpc, max)->Ok_0,
            max + 2 * varint_len(max) + 1,
        ),
{
    let plain = plain_items(rpc);
    let controls = control_items(rpc.control, max);
    lemma_varint_len_bound(max / 128);
    if rpc.size() >= max {
        let items = plain + controls;
        let start = seq![RpcView::empty()];
        assert(start[0].size() == 0);
        assert forall|i: int| 0 <= i < items.len() && (#[trigger] items[i]).is_plain() implies
            items[i].size() + 2 <= max by {
            if i < plain.len() {
                assert(items[i] == plain[i]);
            } else {
                assert(items[i] == controls[i - plain.len()]);
            }
        }
        lemma_placed_all_nearly_fits(start, items, max);
        lemma_control_order(rpc, max);
        assert forall|i: int| 0 <= i < plain.len() implies RpcView::empty().with(
            #[trigger] plain[i],
        ).size() <= max + varint_len(max) by {
            lemma_alone_size(plain[i], max);
        }
        if alone_within(controls, max + slack(max)) {
            fragments_stay_within(rpc, max, max + slack(max));
        }
        if items_fit(controls, max) {
            let bound = max + 2 * varint_len(max) + 1;
            assert forall|i: int| 0 <= i < controls.len() implies RpcView::empty().with(
                #[trigger] controls[i],
            ).size() <= bound by {
                lemma_alone_size(controls[i], max);
            }
            fragments_stay_within(rpc, max, bound);
        }
    }
}

} // verus!
