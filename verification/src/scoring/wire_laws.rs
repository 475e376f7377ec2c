//! What holds of the sizes of messages, of how they are cut and of what an attacker sends.

use super::attacker::{
    addressed, answer_rpc, answers, graft_rpc, is_target, outgoing_views, prunes, regraft_delay,
    sendable, subscribed, subscription_to, ControlAction, Outgoing, Prune, Regraft, Subscription,
    HISTORY_LENGTH, MAX_TRANSMIT_SIZE, PRUNE_BACKOFF_DELAY,
};
use super::beacon_node::BeaconNodeInfo;
use super::fragment::{fragments, placed, placed_all, rpc_views, ItemView};
use super::rpc::{
    cap, repeated_size, varint_len, ControlGraft, ControlIHave, ControlIWant, ControlMessage,
    ControlPrune, ControlView, Encoded, PeerInfo, PublishedMessage, Rpc, RpcView, SubOpts,
};
use vstd::prelude::*;
use vstd::utf8::encode_utf8;

verus! {

/// A number takes one byte for each seven bits: one for what is below 128, and one more than without its
/// last seven bits for all others. Sizes are cut off at the largest machine word.
pub proof fn numbers_take_a_byte_for_seven_bits(high: nat, low: nat)
    requires
        low < 128,
    ensures
        varint_len(low) == 1,
        high > 0 ==> varint_len(high * 128 + low) == varint_len(high) + 1,
        cap(high) == high || (high > usize::MAX && cap(high) == usize::MAX),
{
    assert((high * 128 + low) / 128 == high);
}

/// How many bytes a field takes: one for its key, then the length of its contents, then the contents.
pub open spec fn framed(len: nat) -> nat {
    1 + varint_len(len) + len
}

/// How many bytes an optional field of bytes takes.
pub open spec fn framed_bytes(field: Option<Vec<u8>>) -> nat {
    if field is Some {
        framed(field->Some_0@.len())
    } else {
        0
    }
}

/// How many bytes an optional text takes, in its UTF-8 form.
pub open spec fn framed_text(field: Option<String>) -> nat {
    if field is Some {
        framed(encode_utf8(field->Some_0@).len())
    } else {
        0
    }
}

/// A repeated field takes what each of its items takes.
pub proof fn items_add_up<T: Encoded>(items: Seq<T>, item: T)
    ensures
        repeated_size(Seq::<T>::empty()) == 0,
        repeated_size(items.push(item)) == repeated_size(items) + framed(item.size()),
{
    assert(items.push(item).drop_last() =~= items);
}

/// Every part of a message takes what its fields take.
pub proof fn parts_take_what_their_fields_take(
    subscription: SubOpts,
    message: PublishedMessage,
    ihave: ControlIHave,
    iwant: ControlIWant,
    graft: ControlGraft,
    prune: ControlPrune,
    peer: PeerInfo,
)
    ensures
        subscription.size() == framed_text(subscription.topic_id) + if subscription.subscribe
            is Some {
            2nat
        } else {
            0
        },
        message.size() == framed_bytes(message.from) + framed_bytes(message.data) + framed_bytes(
            message.seqno,
        ) + framed(encode_utf8(message.topic@).len()) + framed_bytes(message.signature)
            + framed_bytes(message.key),
        ihave.size() == framed_text(ihave.topic_id) + repeated_size(ihave.message_ids@),
        iwant.size() == repeated_size(iwant.message_ids@),
        graft.size() == framed_text(graft.topic_id),
        prune.size() == framed_text(prune.topic_id) + repeated_size(prune.peers@) + if prune.backoff
            is Some {
            1 + varint_len(prune.backoff->Some_0 as nat)
        } else {
            0
        },
        peer.size() == framed_bytes(peer.peer_id) + framed_bytes(peer.signed_peer_record),
{
}

/// A message takes what its subscriptions, its published messages and its control part take.
pub proof fn messages_take_what_their_parts_take(rpc: RpcView, control: ControlView)
    ensures
        control.size() == repeated_size(control.ihave) + repeated_size(control.iwant)
            + repeated_size(control.graft) + repeated_size(control.prune),
        rpc.size() == repeated_size(rpc.subscriptions) + repeated_size(rpc.publish)
            + if rpc.control is Some {
            framed(rpc.control->Some_0.size())
        } else {
            0
        },
{
}

/// An item goes into the last message, unless that one holds something and the item with a twentieth of
/// its size on top does not fit: then it begins a new message.
pub proof fn items_go_into_the_last_message(list: Seq<RpcView>, item: ItemView, max: nat)
    requires
        list.len() > 0,
    ensures
        ({
            let last = list.last();
            let nothing = RpcView { subscriptions: Seq::empty(), publish: Seq::empty(), control: None };
            let full = last != nothing && last.size() + item.size() + item.size() / 20 > max;
            &&& full ==> placed(list, item, max) == list.push(nothing.with(item))
            &&& !full ==> placed(list, item, max) == list.drop_last().push(last.with(item))
        }),
{
    assert(list.push(RpcView::empty()).drop_last() =~= list);
}

/// Items are placed one after the other.
pub proof fn items_are_placed_in_turn(
    list: Seq<RpcView>,
    items: Seq<ItemView>,
    item: ItemView,
    max: nat,
)
    ensures
        placed_all(list, Seq::empty(), max) == list,
        placed_all(list, items.push(item), max) == placed(
            placed_all(list, items, max),
            item,
            max,
        ),
{
    assert(items.push(item).drop_last() =~= items);
}

/// An item goes behind those of its kind and leaves the others as they are. A whole control part takes
/// the place of the one that was there.
pub proof fn items_go_behind_their_kind(rpc: RpcView, item: ItemView)
    ensures
        ({
            let after = rpc.with(item);
            let nothing = ControlView {
                ihave: Seq::empty(),
                iwant: Seq::empty(),
                graft: Seq::empty(),
                prune: Seq::empty(),
            };
            let before = if rpc.control is Some {
                rpc.control->Some_0
            } else {
                nothing
            };
            &&& match item {
                ItemView::Publish(x) => after.publish == rpc.publish.push(x),
                _ => after.publish == rpc.publish,
            }
            &&& match item {
                ItemView::Subscription(x) => after.subscriptions == rpc.subscriptions.push(x),
                _ => after.subscriptions == rpc.subscriptions,
            }
            &&& match item {
                ItemView::Publish(_) | ItemView::Subscription(_) => after.control == rpc.control,
                ItemView::Control(x) => after.control == Some(x),
                ItemView::IHave(x) => after.control == Some(
                    ControlView { ihave: before.ihave.push(x), ..before },
                ),
                ItemView::IWant(x) => after.control == Some(
                    ControlView { iwant: before.iwant.push(x), ..before },
                ),
                ItemView::Graft(x) => after.control == Some(
                    ControlView { graft: before.graft.push(x), ..before },
                ),
                ItemView::Prune(x) => after.control == Some(
                    ControlView { prune: before.prune.push(x), ..before },
                ),
            }
        }),
{
}

/// What a message is cut into: published messages, then subscriptions, then the control part, whole where
/// it leaves two bytes free and else item by item.
pub open spec fn pieces(rpc: RpcView, max: nat) -> Seq<ItemView> {
    let plain = Seq::new(rpc.publish.len(), |i: int| ItemView::Publish(rpc.publish[i])) + Seq::new(
        rpc.subscriptions.len(),
        |i: int| ItemView::Subscription(rpc.subscriptions[i]),
    );
    if rpc.control is None {
        plain
    } else {
        let control = rpc.control->Some_0;
        if control.size() + 2 <= max {
            plain.push(ItemView::Control(control))
        } else {
            plain + Seq::new(control.ihave.len(), |i: int| ItemView::IHave(control.ihave[i]))
                + Seq::new(control.iwant.len(), |i: int| ItemView::IWant(control.iwant[i]))
                + Seq::new(control.graft.len(), |i: int| ItemView::Graft(control.graft[i]))
                + Seq::new(control.prune.len(), |i: int| ItemView::Prune(control.prune[i]))
        }
    }
}

/// A message below the limit is sent as it is. A larger one is refused exactly where a published message
/// or a subscription does not leave two bytes free, and else cut into its pieces, each placed in turn.
pub proof fn messages_are_cut_into_pieces(rpc: RpcView, max: nat)
    ensures
        rpc.size() < max ==> fragments(rpc, max) is Ok && fragments(rpc, max)->Ok_0 == seq![rpc],
        rpc.size() >= max ==> (fragments(rpc, max) is Ok <==> (forall|i: int|
            0 <= i < rpc.publish.len() ==> (#[trigger] rpc.publish[i]).size() + 2 <= max) && (
        forall|i: int|
            0 <= i < rpc.subscriptions.len() ==> (#[trigger] rpc.subscriptions[i]).size() + 2
                <= max)),
        rpc.size() >= max && fragments(rpc, max) is Ok ==> fragments(rpc, max)->Ok_0 == placed_all(
            seq![RpcView::empty()],
            pieces(rpc, max),
            max,
        ),
{
    let plain = super::fragment::plain_items(rpc);
    let controls = super::fragment::control_items(rpc.control, max);
    assert(plain + controls =~= pieces(rpc, max));
    if rpc.size() >= max {
        if fragments(rpc, max) is Ok {
            assert forall|i: int| 0 <= i < rpc.publish.len() implies (
            #[trigger] rpc.publish[i]).size() + 2 <= max by {
                assert(plain[i] == ItemView::Publish(rpc.publish[i]));
                assert(plain[i].size() + 2 <= max);
            }
            assert forall|i: int| 0 <= i < rpc.subscriptions.len() implies (
            #[trigger] rpc.subscriptions[i]).size() + 2 <= max by {
                assert(plain[rpc.publish.len() + i] == ItemView::Subscription(
                    rpc.subscriptions[i],
                ));
                assert(plain[rpc.publish.len() + i].size() + 2 <= max);
            }
        } else {
            let bad = choose|i: int|
                0 <= i < plain.len() && (#[trigger] plain[i]).size() + 2 > max;
            if bad < rpc.publish.len() {
                assert(plain[bad] == ItemView::Publish(rpc.publish[bad]));
            } else {
                assert(plain[bad] == ItemView::Subscription(
                    rpc.subscriptions[bad - rpc.publish.len()],
                ));
            }
        }
    }
}

/// An attacker asks for a place in the mesh of each topic, in order, and sends nothing else with it.
pub proof fn grafts_name_each_topic(topics: Seq<String>)
    ensures
        graft_rpc(topics).subscriptions.len() == 0,
        graft_rpc(topics).publish.len() == 0,
        graft_rpc(topics).control matches Some(control) && {
            &&& control.ihave.len() == 0 && control.iwant.len() == 0 && control.prune.len() == 0
            &&& control.graft.len() == topics.len()
            &&& forall|i: int|
                0 <= i < topics.len() ==> (#[trigger] control.graft[i]).topic_id == Some(topics[i])
        },
        PRUNE_BACKOFF_DELAY == 5,
        MAX_TRANSMIT_SIZE == 10 * 1024 * 1024,
        HISTORY_LENGTH == 12,
{
}

/// The answer to subscriptions subscribes to the same topics, in order, except those that are too large
/// to be sent, and asks for a place in the mesh of each.
pub proof fn answers_subscribe_to_what_can_be_sent(topics: Seq<String>, topic: String)
    ensures
        answer_rpc(topics).publish.len() == 0,
        answer_rpc(topics).control == graft_rpc(topics).control,
        answer_rpc(Seq::empty()).subscriptions.len() == 0,
        ({
            let subscription = SubOpts { subscribe: Some(true), topic_id: Some(topic) };
            let before = answer_rpc(topics).subscriptions;
            &&& sendable(topic) <==> subscription.size() + 2 <= 10 * 1024 * 1024
            &&& answer_rpc(topics.push(topic)).subscriptions == if subscription.size() + 2 <= 10
                * 1024 * 1024 {
                before.push(subscription)
            } else {
                before
            }
        }),
{
    reveal(Seq::filter);
    let can = |t: String| sendable(t);
    let to = |t: String| subscription_to(t);
    let longer = topics.push(topic);
    assert(longer.drop_last() =~= topics);
    assert(longer.last() == topic);
    if sendable(topic) {
        assert(longer.filter(can) == topics.filter(can).push(topic));
        assert(longer.filter(can).map_values(to) =~= topics.filter(can).map_values(to).push(
            subscription_to(topic),
        ));
    } else {
        assert(longer.filter(can) == topics.filter(can));
    }
}

/// All messages go to the peer that they are meant for, in order.
pub proof fn messages_are_addressed(peer_id: Seq<char>, list: Seq<RpcView>)
    ensures
        addressed(peer_id, list).len() == list.len(),
        forall|i: int|
            0 <= i < list.len() ==> (#[trigger] addressed(peer_id, list)[i]).message == list[i]
                && addressed(peer_id, list)[i].peer_id == peer_id,
{
}

/// The topics that a peer subscribes to are taken in order, and those that it leaves are passed over.
pub proof fn subscriptions_are_taken_in_order(
    subscriptions: Seq<Subscription>,
    subscription: Subscription,
)
    ensures
        subscribed(Seq::empty()).len() == 0,
        subscribed(subscriptions.push(subscription)) == if subscription.action is Subscribe {
            subscribed(subscriptions).push(subscription.topic_hash)
        } else {
            subscribed(subscriptions)
        },
{
    assert(subscriptions.push(subscription).drop_last() =~= subscriptions);
}

/// Prunes are taken in order out of what a peer says, and everything else is passed over.
pub proof fn prunes_are_taken_in_order(actions: Seq<ControlAction>, action: ControlAction)
    ensures
        prunes(Seq::empty()).len() == 0,
        action matches ControlAction::Prune(prune) ==> prunes(actions.push(action)) == prunes(
            actions,
        ).push(prune),
        !(action is Prune) ==> prunes(actions.push(action)) == prunes(actions),
{
    assert(actions.push(action).drop_last() =~= actions);
}

/// A pruned attacker asks again five seconds after the wait that the peer asked for, or that of a minute
/// where it asked for none.
pub proof fn attackers_wait_and_ask_again(
    backoff: u64,
    regrafts: Seq<Regraft>,
    peer_id: Seq<char>,
    prune_data: Seq<Prune>,
)
    ensures
        regraft_delay(Some(backoff)) == backoff + 5,
        regraft_delay(None) == 65,
        answers(regrafts, peer_id, prune_data) ==> regrafts.len() == prune_data.len() && forall|
            i: int,
        |
            0 <= i < regrafts.len() ==> {
                &&& (#[trigger] regrafts[i]).peer_id@ == peer_id
                &&& regrafts[i].topic_hash@ == prune_data[i].topic_hash@
                &&& prune_data[i].backoff is Some ==> regrafts[i].delay
                    == prune_data[i].backoff->Some_0 + 5
                &&& prune_data[i].backoff is None ==> regrafts[i].delay == 65
            },
{
}

/// The target is the first of the nodes with the most validators, and runs at least one.
pub proof fn targets_run_the_most_validators(infos: Seq<(usize, BeaconNodeInfo)>, k: int, i: int)
    requires
        is_target(infos, k),
        0 <= i < infos.len(),
    ensures
        0 <= k < infos.len(),
        infos[k].1.validators@.len() > 0,
        infos[i].1.validators@.len() <= infos[k].1.validators@.len(),
        infos[i].1.validators@.len() == infos[k].1.validators@.len() ==> k <= i,
        is_target(infos, i) ==> i == k,
{
}

/// Lists of messages stand for what each of them stands for, in order.
pub proof fn lists_stand_for_their_messages(events: Seq<Outgoing>, list: Seq<Rpc>)
    ensures
        outgoing_views(events).len() == events.len(),
        forall|i: int|
            0 <= i < events.len() ==> (#[trigger] outgoing_views(events)[i]).peer_id
                == events[i].peer_id@ && outgoing_views(events)[i].message == events[i].message@,
        rpc_views(list).len() == list.len(),
        forall|i: int| 0 <= i < list.len() ==> #[trigger] rpc_views(list)[i] == list[i]@,
{
}

/// A message stands for its subscriptions, its published messages and its control part.
pub proof fn messages_stand_for_their_parts(rpc: Rpc, control: ControlMessage)
    ensures
        rpc@.subscriptions == rpc.subscriptions@,
        rpc@.publish == rpc.publish@,
        rpc@.control is Some <==> rpc.control is Some,
        rpc.control matches Some(part) ==> rpc@.control == Some(part@),
        control@.ihave == control.ihave@,
        control@.iwant == control.iwant@,
        control@.graft == control.graft@,
        control@.prune == control.prune@,
{
}

} // verus!
