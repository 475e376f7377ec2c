//! Cutting messages that are too large into fragments.

use super::rpc::{
    cap, ControlGraft, ControlIHave, ControlIWant, ControlMessage, ControlPrune, ControlView,
    Encoded, PublishedMessage, Rpc, RpcView, SubOpts,
};
use vstd::prelude::*;

verus! {

/// Why a message cannot be sent.
#[derive(Clone, Copy, Debug, PartialEq, Eq, Structural)]
pub enum PublishError {
    /// A single item is larger than what may be sent at once.
    MessageTooLarge,
}

/// What is not cut any further.
#[derive(Debug)]
pub enum Item {
    Publish(PublishedMessage),
    Subscription(SubOpts),
    IHave(ControlIHave),
    IWant(ControlIWant),
    Graft(ControlGraft),
    Prune(ControlPrune),
    Control(ControlMessage),
}

/// What an [`Item`] stands for.
pub enum ItemView {
    Publish(PublishedMessage),
    Subscription(SubOpts),
    IHave(ControlIHave),
    IWant(ControlIWant),
    Graft(ControlGraft),
    Prune(ControlPrune),
    Control(ControlView),
}

impl View for Item {
    type V = ItemView;

    open spec fn view(&self) -> ItemView {
        match self {
            Item::Publish(x) => ItemView::Publish(*x),
            Item::Subscription(x) => ItemView::Subscription(*x),
            Item::IHave(x) => ItemView::IHave(*x),
            Item::IWant(x) => ItemView::IWant(*x),
            Item::Graft(x) => ItemView::Graft(*x),
            Item::Prune(x) => ItemView::Prune(*x),
            Item::Control(x) => ItemView::Control(x@),
        }
    }
}

/// What a sequence of items stands for.
pub open spec fn item_views(items: Seq<Item>) -> Seq<ItemView> {
    items.map_values(|item: Item| item@)
}

impl ItemView {
    /// The size on the wire.
    pub open spec fn size(self) -> nat {
        match self {
            ItemView::Publish(x) => x.size(),
            ItemView::Subscription(x) => x.size(),
            ItemView::IHave(x) => x.size(),
            ItemView::IWant(x) => x.size(),
            ItemView::Graft(x) => x.size(),
            ItemView::Prune(x) => x.size(),
            ItemView::Control(x) => x.size(),
        }
    }

    /// Whether the item is a published message or a subscription.
    pub open spec fn is_plain(self) -> bool {
        self is Publish || self is Subscription
    }
}

impl Item {
    /// The size on the wire, cut off at the largest number that a machine word holds.
    fn encoded_len(&self) -> (len: usize)
        ensures
            len == cap(self@.size()),
    {
        match self {
            Item::Publish(x) => x.encoded_len(),
            Item::Subscription(x) => x.encoded_len(),
            Item::IHave(x) => x.encoded_len(),
            Item::IWant(x) => x.encoded_len(),
            Item::Graft(x) => x.encoded_len(),
            Item::Prune(x) => x.encoded_len(),
            Item::Control(x) => x.encoded_len(),
        }
    }
}

impl RpcView {
    /// The control messages, none where there are none.
    pub open spec fn controls(self) -> ControlView {
        match self.control {
            Some(control) => control,
            None => ControlView::empty(),
        }
    }

    /// The message with one more item.
    pub open spec fn with(self, item: ItemView) -> RpcView {
        let controls = self.controls();
        match item {
            ItemView::Publish(x) => RpcView { publish: self.publish.push(x), ..self },
            ItemView::Subscription(x) => RpcView { subscriptions: self.subscriptions.push(x), ..self },
            ItemView::IHave(x) => RpcView {
                control: Some(ControlView { ihave: controls.ihave.push(x), ..controls }),
                ..self
            },
            ItemView::IWant(x) => RpcView {
                control: Some(ControlView { iwant: controls.iwant.push(x), ..controls }),
                ..self
            },
            ItemView::Graft(x) => RpcView {
                control: Some(ControlView { graft: controls.graft.push(x), ..controls }),
                ..self
            },
            ItemView::Prune(x) => RpcView {
                control: Some(ControlView { prune: controls.prune.push(x), ..controls }),
                ..self
            },
            ItemView::Control(x) => RpcView { control: Some(x), ..self },
        }
    }
}

/// What a sequence of messages stands for.
pub open spec fn rpc_views(list: Seq<Rpc>) -> Seq<RpcView> {
    list.map_values(|rpc: Rpc| rpc@)
}

/// The size of an item with a twentieth of it for length prefixes.
pub open spec fn padded(size: nat) -> nat {
    size + size / 20
}

/// The fragments with a new one behind them where the last one has something in it and an item of
/// that size would make it too large.
pub open spec fn opened(list: Seq<RpcView>, size: nat, max: nat) -> Seq<RpcView> {
    if list.last().size() + padded(size) > max && list.last() != RpcView::empty() {
        list.push(RpcView::empty())
    } else {
        list
    }
}

/// The fragments with one more item in the last one.
pub open spec fn placed(list: Seq<RpcView>, item: ItemView, max: nat) -> Seq<RpcView> {
    let open = opened(list, item.size(), max);
    open.drop_last().push(open.last().with(item))
}

/// The fragments with some more items, one after the other.
pub open spec fn placed_all(list: Seq<RpcView>, items: Seq<ItemView>, max: nat) -> Seq<RpcView>
    decreases items.len(),
{
    if items.len() == 0 {
        list
    } else {
        placed(placed_all(list, items.drop_last(), max), items.last(), max)
    }
}

/// Published messages as items.
pub open spec fn publish_items(publish: Seq<PublishedMessage>) -> Seq<ItemView> {
    publish.map_values(|x: PublishedMessage| ItemView::Publish(x))
}

/// Subscriptions as items.
pub open spec fn subscription_items(subscriptions: Seq<SubOpts>) -> Seq<ItemView> {
    subscriptions.map_values(|x: SubOpts| ItemView::Subscription(x))
}

/// The published messages, then the subscriptions, as items.
pub open spec fn plain_items(rpc: RpcView) -> Seq<ItemView> {
    publish_items(rpc.publish) + subscription_items(rpc.subscriptions)
}

/// Control messages as items: all at once where they fit, else each on its own.
pub open spec fn control_items(control: Option<ControlView>, max: nat) -> Seq<ItemView> {
    match control {
        Some(control) => if control.size() + 2 > max {
            control.ihave.map_values(|x: ControlIHave| ItemView::IHave(x)) + control.iwant.map_values(
                |x: ControlIWant| ItemView::IWant(x),
            ) + control.graft.map_values(|x: ControlGraft| ItemView::Graft(x))
                + control.prune.map_values(|x: ControlPrune| ItemView::Prune(x))
        } else {
            seq![ItemView::Control(control)]
        },
        None => Seq::empty(),
    }
}

/// Whether no item is too large to be sent on its own.
pub open spec fn items_fit(items: Seq<ItemView>, max: nat) -> bool {
    forall|i: int| 0 <= i < items.len() ==> (#[trigger] items[i]).size() + 2 <= max
}

/// What is sent for a message: the message itself where it is small enough, else fragments of it.
/// A published message or a subscription that is too large on its own cannot be sent.
pub open spec fn fragments(rpc: RpcView, max: nat) -> Result<Seq<RpcView>, PublishError> {
    if rpc.size() < max {
        Ok(seq![rpc])
    } else if !items_fit(plain_items(rpc), max) {
        Err(PublishError::MessageTooLarge)
    } else {
        Ok(
            placed_all(
                seq![RpcView::empty()],
                plain_items(rpc) + control_items(rpc.control, max),
                max,
            ),
        )
    }
}

/// Nothing to send.
fn empty_rpc() -> (rpc: Rpc)
    ensures
        rpc@ == RpcView::empty(),
{
    let rpc = Rpc { subscriptions: Vec::new(), publish: Vec::new(), control: None };
    assert(rpc@ =~= RpcView::empty());
    rpc
}

/// Whether there is nothing to send.
fn is_empty(rpc: &Rpc) -> (empty: bool)
    ensures
        empty == (rpc@ == RpcView::empty()),
{
    let empty: bool = rpc.subscriptions.len() == 0 && rpc.publish.len() == 0
        && rpc.control.is_none();
    proof {
        if empty {
            assert(rpc@ =~= RpcView::empty());
        }
    }
    empty
}

/// Adds an item to a message.
fn add_item(rpc: Rpc, item: Item) -> (longer: Rpc)
    ensures
        longer@ == rpc@.with(item@),
{
    let ghost before = rpc@;
    let Rpc { mut subscriptions, mut publish, control } = rpc;
    let no_control = ControlMessage {
        ihave: Vec::new(),
        iwant: Vec::new(),
        graft: Vec::new(),
        prune: Vec::new(),
    };
    assert(no_control@ =~= ControlView::empty());
    let control: Option<ControlMessage> = match item {
        Item::Publish(x) => {
            publish.push(x);
            control
        },
        Item::Subscription(x) => {
            subscriptions.push(x);
            control
        },
        Item::IHave(x) => {
            let mut controls: ControlMessage = control.unwrap_or(no_control);
            controls.ihave.push(x);
            Some(controls)
        },
        Item::IWant(x) => {
            let mut controls: ControlMessage = control.unwrap_or(no_control);
            controls.iwant.push(x);
            Some(controls)
        },
        Item::Graft(x) => {
            let mut controls: ControlMessage = control.unwrap_or(no_control);
            controls.graft.push(x);
            Some(controls)
        },
        Item::Prune(x) => {
            let mut controls: ControlMessage = control.unwrap_or(no_control);
            controls.prune.push(x);
            Some(controls)
        },
        Item::Control(x) => Some(x),
    };
    let longer = Rpc { subscriptions, publish, control };
    assert(longer@ =~= before.with(item@));
    longer
}

/// Adds an item to the last fragment, or to a new one.
fn place(list: &mut Vec<Rpc>, item: Item, max: usize)
    requires
        old(list)@.len() > 0,
        max < usize::MAX,
    ensures
        rpc_views(final(list)@) == placed(rpc_views(old(list)@), item@, max as nat),
        final(list)@.len() > 0,
{
    let ghost before = rpc_views(list@);
    let last: Rpc = list.pop().unwrap();
    let ghost rest = rpc_views(list@);
    let size: usize = item.encoded_len();
    let too_large: bool = last.encoded_len().saturating_add(
        size.saturating_add(size / 20),
    ) > max;
    proof {
        assert(before =~= rest.push(last@));
        assert(too_large == (last.size() + padded(item@.size()) > max));
    }
    if too_large && !is_empty(&last) {
        list.push(last);
        let fresh: Rpc = add_item(empty_rpc(), item);
        list.push(fresh);
        assert(rpc_views(list@) =~= placed(before, item@, max as nat));
    } else {
        let longer: Rpc = add_item(last, item);
        list.push(longer);
        assert(rpc_views(list@) =~= placed(before, item@, max as nat));
    }
}

/// Appends an item.
fn push_item(items: &mut Vec<Item>, item: Item)
    ensures
        item_views(final(items)@) == item_views(old(items)@).push(item@),
{
    items.push(item);
    assert(item_views(items@) =~= item_views(old(items)@).push(item@));
}

/// Takes a message apart into published messages and subscriptions.
fn take_plain_items(publish: Vec<PublishedMessage>, subscriptions: Vec<SubOpts>) -> (items: Vec<
    Item,
>)
    ensures
        item_views(items@) == publish_items(publish@) + subscription_items(subscriptions@),
{
    let ghost all_publish = publish@;
    let ghost all_subscriptions = subscriptions@;
    let mut items: Vec<Item> = Vec::new();
    for x in it: publish
        invariant
            it.seq() == all_publish,
            item_views(items@) =~= publish_items(all_publish.take(it.index())),
    {
        push_item(&mut items, Item::Publish(x));
    }
    assert(all_publish.take(all_publish.len() as int) =~= all_publish);
    for x in it: subscriptions
        invariant
            it.seq() == all_subscriptions,
            item_views(items@) =~= publish_items(all_publish) + subscription_items(
                all_subscriptions.take(it.index()),
            ),
    {
        push_item(&mut items, Item::Subscription(x));
    }
    assert(all_subscriptions.take(all_subscriptions.len() as int) =~= all_subscriptions);
    items
}

/// What control messages stand for, if there are any.
spec fn control_view(control: Option<ControlMessage>) -> Option<ControlView> {
    match control {
        Some(control) => Some(control@),
        None => None,
    }
}

/// Takes control messages apart.
fn take_control_items(control: Option<ControlMessage>, max: usize) -> (items: Vec<Item>)
    requires
        max < usize::MAX,
    ensures
        item_views(items@) == control_items(control_view(control), max as nat),
{
    let mut items: Vec<Item> = Vec::new();
    match control {
        Some(control) => {
            if control.encoded_len().saturating_add(2) > max {
                let ControlMessage { ihave, iwant, graft, prune } = control;
                let ghost all_ihave = ihave@;
                let ghost all_iwant = iwant@;
                let ghost all_graft = graft@;
                let ghost all_prune = prune@;
                let ghost as_ihave = |x: ControlIHave| ItemView::IHave(x);
                let ghost as_iwant = |x: ControlIWant| ItemView::IWant(x);
                let ghost as_graft = |x: ControlGraft| ItemView::Graft(x);
                let ghost as_prune = |x: ControlPrune| ItemView::Prune(x);
                for x in it: ihave
                    invariant
                        it.seq() == all_ihave,
                        as_ihave == (|x: ControlIHave| ItemView::IHave(x)),
                        item_views(items@) =~= all_ihave.take(it.index()).map_values(as_ihave),
                {
                    push_item(&mut items, Item::IHave(x));
                }
                let ghost first = item_views(items@);
                assert(first =~= all_ihave.map_values(as_ihave));
                for x in it: iwant
                    invariant
                        it.seq() == all_iwant,
                        as_iwant == (|x: ControlIWant| ItemView::IWant(x)),
                        item_views(items@) =~= first + all_iwant.take(it.index()).map_values(as_iwant),
                {
                    push_item(&mut items, Item::IWant(x));
                }
                let ghost second = item_views(items@);
                assert(second =~= first + all_iwant.map_values(as_iwant));
                for x in it: graft
                    invariant
                        it.seq() == all_graft,
                        as_graft == (|x: ControlGraft| ItemView::Graft(x)),
                        item_views(items@) =~= second + all_graft.take(it.index()).map_values(as_graft),
                {
                    push_item(&mut items, Item::Graft(x));
                }
                let ghost third = item_views(items@);
                assert(third =~= second + all_graft.map_values(as_graft));
                for x in it: prune
                    invariant
                        it.seq() == all_prune,
                        as_prune == (|x: ControlPrune| ItemView::Prune(x)),
                        item_views(items@) =~= third + all_prune.take(it.index()).map_values(as_prune),
                {
                    push_item(&mut items, Item::Prune(x));
                }
                assert(item_views(items@) =~= third + all_prune.map_values(as_prune));
            } else {
                push_item(&mut items, Item::Control(control));
                assert(item_views(items@) =~= seq![ItemView::Control(control@)]);
            }
        },
        None => {},
    }
    items
}

/// Whether no item is too large to be sent on its own.
fn all_fit(items: &Vec<Item>, max: usize) -> (fit: bool)
    requires
        max < usize::MAX,
    ensures
        fit == items_fit(item_views(items@), max as nat),
{
    let mut i: usize = 0;
    while i < items.len()
        invariant
            max < usize::MAX,
            i <= items@.len(),
            forall|k: int| 0 <= k < i ==> (#[trigger] items@[k])@.size() + 2 <= max,
        decreases items@.len() - i,
    {
        if items[i].encoded_len().saturating_add(2) > max {
            assert(item_views(items@)[i as int].size() + 2 > max);
            return false;
        }
        i = i + 1;
    }
    true
}

/// Cuts a message into fragments where it is too large to be sent as it is.
pub fn fragment(rpc: Rpc, max: usize) -> (cut: Result<Vec<Rpc>, PublishError>)
    requires
        max < usize::MAX,
    ensures
        match fragments(rpc@, max as nat) {
            Ok(list) => cut is Ok && rpc_views(cut->Ok_0@) == list,
            Err(e) => cut == Err::<Vec<Rpc>, PublishError>(e),
        },
{
    if rpc.encoded_len() < max {
        let mut list: Vec<Rpc> = Vec::new();
        list.push(rpc);
        assert(rpc_views(list@) =~= seq![rpc@]);
        return Ok(list);
    }
    let ghost whole = rpc@;
    let Rpc { subscriptions, publish, control } = rpc;
    let mut items: Vec<Item> = take_plain_items(publish, subscriptions);
    if !all_fit(&items, max) {
        return Err(PublishError::MessageTooLarge);
    }
    let mut controls: Vec<Item> = take_control_items(control, max);
    items.append(&mut controls);
    let ghost all = items@;
    let ghost views = item_views(all);
    let mut list: Vec<Rpc> = Vec::new();
    list.push(empty_rpc());
    let ghost start = rpc_views(list@);
    proof {
        assert(views =~= plain_items(whole) + control_items(whole.control, max as nat));
        assert(start =~= seq![RpcView::empty()]);
        assert(views.take(0) =~= Seq::empty());
    }
    for item in it: items
        invariant
            max < usize::MAX,
            it.seq() == all,
            list@.len() > 0,
            views == item_views(all),
            rpc_views(list@) == placed_all(start, views.take(it.index()), max as nat),
    {
        proof {
            let next = views.take(it.index() + 1);
            assert(next.drop_last() =~= views.take(it.index()));
            assert(next.last() == item@);
        }
        place(&mut list, item, max);
    }
    assert(views.take(all.len() as int) =~= views);
    Ok(list)
}

} // verus!
