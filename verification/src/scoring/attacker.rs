//! A node that censors: it subscribes to every topic of its peers, lets itself into the mesh, and
//! forwards nothing.

use super::beacon_node::{BeaconNodeInfo, PRUNE_BACKOFF};
use super::fragment::{fragment, fragments, items_fit, plain_items, rpc_views, PublishError};
use super::fragment_laws::{fragments_keep_everything, gathered, lemma_gathered_plain};
use super::rpc::{ControlGraft, ControlMessage, ControlView, Encoded, Rpc, RpcView, SubOpts};
use std::collections::VecDeque;
use vstd::prelude::*;

verus! {

/// How many seconds pass after the end of a backoff before a graft is sent again.
pub const PRUNE_BACKOFF_DELAY: u64 = 5;

/// The largest message that may be sent at once, in bytes.
pub const MAX_TRANSMIT_SIZE: usize = 10_485_760;

/// How many messages are remembered for gossip, in heartbeats.
pub const HISTORY_LENGTH: usize = 12;

/// Whether a peer subscribes to a topic or leaves it.
#[derive(Clone, Copy, Debug, PartialEq, Eq, Structural)]
pub enum SubscriptionAction {
    Subscribe,
    Unsubscribe,
}

/// A subscription of a peer.
#[derive(Debug)]
pub struct Subscription {
    pub action: SubscriptionAction,
    pub topic_hash: String,
}

/// A control message of a peer, as far as it matters here.
#[derive(Debug)]
pub enum ControlAction {
    IHave,
    IWant,
    Graft,
    Prune(Prune),
}

/// A peer removed this node from the mesh of a topic.
#[derive(Debug)]
pub struct Prune {
    pub topic_hash: String,
    /// How many seconds to wait before the next graft.
    pub backoff: Option<u64>,
}

/// What a peer sent at once, as far as it matters here.
#[derive(Debug)]
pub struct ReceivedRpc {
    pub subscriptions: Vec<Subscription>,
    pub control_msgs: Vec<ControlAction>,
}

/// A message to a peer.
#[derive(Debug)]
pub struct Outgoing {
    pub peer_id: String,
    pub message: Rpc,
}

/// What an [`Outgoing`] stands for.
pub struct OutgoingView {
    pub peer_id: Seq<char>,
    pub message: RpcView,
}

impl View for Outgoing {
    type V = OutgoingView;

    open spec fn view(&self) -> OutgoingView {
        OutgoingView { peer_id: self.peer_id@, message: self.message@ }
    }
}

/// A graft that is to be sent after a delay.
#[derive(Debug)]
pub struct Regraft {
    pub peer_id: String,
    pub topic_hash: String,
    /// The delay in seconds.
    pub delay: u64,
}

/// What messages to peers stand for.
pub open spec fn outgoing_views(events: Seq<Outgoing>) -> Seq<OutgoingView> {
    events.map_values(|event: Outgoing| event@)
}

/// Some messages to one peer.
pub open spec fn addressed(peer_id: Seq<char>, list: Seq<RpcView>) -> Seq<OutgoingView> {
    list.map_values(|message: RpcView| OutgoingView { peer_id, message })
}

/// Messages without their peers.
pub open spec fn sent_messages(events: Seq<OutgoingView>) -> Seq<RpcView> {
    events.map_values(|event: OutgoingView| event.message)
}

/// A message that grafts some topics.
pub open spec fn graft_rpc(topics: Seq<String>) -> RpcView {
    RpcView {
        subscriptions: Seq::empty(),
        publish: Seq::empty(),
        control: Some(
            ControlView {
                graft: topics.map_values(|topic: String| ControlGraft { topic_id: Some(topic) }),
                ..ControlView::empty()
            },
        ),
    }
}

/// What is sent to a peer to graft some topics.
pub open spec fn graft_messages(peer_id: Seq<char>, topics: Seq<String>) -> Seq<OutgoingView> {
    addressed(peer_id, fragments(graft_rpc(topics), MAX_TRANSMIT_SIZE as nat)->Ok_0)
}

/// A message that grafts topics can always be sent.
pub proof fn grafts_can_be_sent(topics: Seq<String>)
    ensures
        fragments(graft_rpc(topics), MAX_TRANSMIT_SIZE as nat) is Ok,
{
    assert(plain_items(graft_rpc(topics)) =~= Seq::empty());
}

/// What is sent to a peer to graft some topics holds neither published messages nor subscriptions,
/// goes to that peer, and grafts exactly these topics, in order.
pub proof fn grafts_forward_nothing(peer_id: Seq<char>, topics: Seq<String>)
    ensures
        forall|i: int|
            0 <= i < graft_messages(peer_id, topics).len() ==> {
                let sent = #[trigger] graft_messages(peer_id, topics)[i];
                &&& sent.peer_id == peer_id
                &&& sent.message.publish.len() == 0
                &&& sent.message.subscriptions.len() == 0
            },
        gathered(fragments(graft_rpc(topics), MAX_TRANSMIT_SIZE as nat)->Ok_0).graft
            == topics.map_values(|topic: String| ControlGraft { topic_id: Some(topic) }),
{
    grafts_can_be_sent(topics);
    fragments_keep_everything(graft_rpc(topics), MAX_TRANSMIT_SIZE as nat);
    let list = fragments(graft_rpc(topics), MAX_TRANSMIT_SIZE as nat)->Ok_0;
    assert forall|i: int| 0 <= i < graft_messages(peer_id, topics).len() implies {
        let sent = #[trigger] graft_messages(peer_id, topics)[i];
        &&& sent.peer_id == peer_id
        &&& sent.message.publish.len() == 0
        &&& sent.message.subscriptions.len() == 0
    } by {
        lemma_gathered_plain(list, i);
    }
}

/// A subscription to a topic.
pub open spec fn subscription_to(topic: String) -> SubOpts {
    SubOpts { subscribe: Some(true), topic_id: Some(topic) }
}

/// Whether a subscription to a topic can be sent: the name of the topic is not too long.
pub open spec fn sendable(topic: String) -> bool {
    subscription_to(topic).size() + 2 <= MAX_TRANSMIT_SIZE
}

/// Subscriptions to the topics whose names are not too long.
pub open spec fn answer_subscriptions(topics: Seq<String>) -> Seq<SubOpts> {
    topics.filter(|topic: String| sendable(topic)).map_values(
        |topic: String| subscription_to(topic),
    )
}

/// A message that subscribes to some topics and grafts them. A subscription that cannot be sent is
/// left out.
pub open spec fn answer_rpc(topics: Seq<String>) -> RpcView {
    RpcView { subscriptions: answer_subscriptions(topics), ..graft_rpc(topics) }
}

/// What is sent to a peer that subscribes to some topics: subscriptions to them and grafts of them.
/// Nothing is sent where there are no topics.
pub open spec fn answer_messages(peer_id: Seq<char>, topics: Seq<String>) -> Seq<OutgoingView> {
    if topics.len() > 0 {
        addressed(peer_id, fragments(answer_rpc(topics), MAX_TRANSMIT_SIZE as nat)->Ok_0)
    } else {
        Seq::empty()
    }
}

/// An answer can always be sent.
pub proof fn answers_can_be_sent(topics: Seq<String>)
    ensures
        fragments(answer_rpc(topics), MAX_TRANSMIT_SIZE as nat) is Ok,
{
    let items = plain_items(answer_rpc(topics));
    let pred = |topic: String| sendable(topic);
    assert forall|i: int| 0 <= i < items.len() implies (#[trigger] items[i]).size() + 2
        <= MAX_TRANSMIT_SIZE by {
        topics.lemma_filter_pred(pred, i);
        assert(items[i].size() == subscription_to(topics.filter(pred)[i]).size());
    }
    assert(items_fit(items, MAX_TRANSMIT_SIZE as nat));
}

/// Where no topic has a name that is too long, all are subscribed to.
proof fn lemma_all_sendable(topics: Seq<String>)
    requires
        forall|i: int| 0 <= i < topics.len() ==> sendable(#[trigger] topics[i]),
    ensures
        topics.filter(|topic: String| sendable(topic)) == topics,
    decreases topics.len(),
{
    reveal(Seq::filter);
    if topics.len() > 0 {
        lemma_all_sendable(topics.drop_last());
        assert(topics.drop_last().push(topics.last()) =~= topics);
    }
}

/// The censoring node answers a peer and forwards nothing: what it sends to a peer that subscribes to
/// some topics holds no published messages, goes to that peer, and grafts exactly these topics, in
/// order. It subscribes to exactly these topics, in order, where none has a name that is too long, and
/// else leaves out those.
pub proof fn answers_forward_nothing(peer_id: Seq<char>, topics: Seq<String>)
    ensures
        topics.len() > 0 ==> answer_messages(peer_id, topics).len() > 0,
        forall|i: int|
            0 <= i < answer_messages(peer_id, topics).len() ==> {
                let sent = #[trigger] answer_messages(peer_id, topics)[i];
                &&& sent.peer_id == peer_id
                &&& sent.message.publish.len() == 0
            },
        ({
            let sent = gathered(sent_messages(answer_messages(peer_id, topics)));
            &&& sent.subscriptions == answer_subscriptions(topics)
            &&& (forall|i: int| 0 <= i < topics.len() ==> sendable(#[trigger] topics[i]))
                ==> sent.subscriptions == topics.map_values(
                |topic: String| subscription_to(topic),
            )
            &&& sent.graft == topics.map_values(
                |topic: String| ControlGraft { topic_id: Some(topic) },
            )
            &&& sent.publish.len() == 0 && sent.ihave.len() == 0 && sent.iwant.len() == 0
                && sent.prune.len() == 0
        }),
{
    let list = fragments(answer_rpc(topics), MAX_TRANSMIT_SIZE as nat)->Ok_0;
    answers_can_be_sent(topics);
    fragments_keep_everything(answer_rpc(topics), MAX_TRANSMIT_SIZE as nat);
    if topics.len() > 0 {
        assert(sent_messages(answer_messages(peer_id, topics)) =~= list);
        if list.len() == 0 {
            assert(gathered(list).graft.len() == topics.len());
        }
    } else {
        reveal(Seq::filter);
        assert(sent_messages(answer_messages(peer_id, topics)) =~= Seq::empty());
        assert(answer_subscriptions(topics) =~= Seq::empty());
    }
    if forall|i: int| 0 <= i < topics.len() ==> sendable(#[trigger] topics[i]) {
        lemma_all_sendable(topics);
    }
    assert forall|i: int| 0 <= i < answer_messages(peer_id, topics).len() implies {
        let sent = #[trigger] answer_messages(peer_id, topics)[i];
        &&& sent.peer_id == peer_id
        &&& sent.message.publish.len() == 0
    } by {
        lemma_gathered_plain(list, i);
    }
}

/// The topics that a peer subscribes to.
pub open spec fn subscribed(subscriptions: Seq<Subscription>) -> Seq<String>
    decreases subscriptions.len(),
{
    if subscriptions.len() == 0 {
        Seq::empty()
    } else {
        let before = subscribed(subscriptions.drop_last());
        match subscriptions.last().action {
            SubscriptionAction::Subscribe => before.push(subscriptions.last().topic_hash),
            SubscriptionAction::Unsubscribe => before,
        }
    }
}

/// The seconds until the next graft after a prune: the backoff that the peer asked for, else the
/// usual one, and a delay on top.
pub open spec fn regraft_delay(backoff: Option<u64>) -> int {
    match backoff {
        Some(backoff) => backoff + PRUNE_BACKOFF_DELAY,
        None => PRUNE_BACKOFF + PRUNE_BACKOFF_DELAY,
    }
}

/// The prunes among control messages.
pub open spec fn prunes(control_msgs: Seq<ControlAction>) -> Seq<Prune>
    decreases control_msgs.len(),
{
    if control_msgs.len() == 0 {
        Seq::empty()
    } else {
        let before = prunes(control_msgs.drop_last());
        match control_msgs.last() {
            ControlAction::Prune(prune) => before.push(prune),
            _ => before,
        }
    }
}

/// Whether the delay after each prune can be counted.
pub open spec fn delays_countable(prune_data: Seq<Prune>) -> bool {
    forall|i: int|
        0 <= i < prune_data.len() ==> regraft_delay((#[trigger] prune_data[i]).backoff) <= u64::MAX
}

/// Whether each of `regrafts` answers the prune of the same place.
pub open spec fn answers(regrafts: Seq<Regraft>, peer_id: Seq<char>, prune_data: Seq<Prune>) -> bool {
    &&& regrafts.len() == prune_data.len()
    &&& forall|i: int|
        0 <= i < regrafts.len() ==> {
            &&& (#[trigger] regrafts[i]).peer_id@ == peer_id
            &&& regrafts[i].topic_hash@ == prune_data[i].topic_hash@
            &&& regrafts[i].delay == regraft_delay(prune_data[i].backoff)
        }
}

/// The behaviour of the censoring node.
#[derive(Debug)]
pub struct MaliciousBehaviour {
    /// Messages that are to be sent.
    pub events: VecDeque<Outgoing>,
}

impl MaliciousBehaviour {
    /// A behaviour with nothing to send.
    pub fn new() -> (behaviour: Self)
        ensures
            behaviour.events@ == Seq::<Outgoing>::empty(),
    {
        MaliciousBehaviour { events: VecDeque::new() }
    }

    /// Answers the subscriptions of a peer: each topic that it subscribes to is subscribed to and
    /// grafted.
    pub fn handle_received_subscriptions(
        &mut self,
        subscriptions: &Vec<Subscription>,
        propagation_source: &str,
    )
        ensures
            outgoing_views(final(self).events@) == outgoing_views(old(self).events@)
                + answer_messages(propagation_source@, subscribed(subscriptions@)),
    {
        let mut topics: Vec<String> = Vec::new();
        let mut i: usize = 0;
        assert(subscriptions@.take(0) =~= Seq::empty());
        while i < subscriptions.len()
            invariant
                i <= subscriptions@.len(),
                topics@ == subscribed(subscriptions@.take(i as int)),
            decreases subscriptions@.len() - i,
        {
            proof {
                let next = subscriptions@.take(i + 1);
                assert(next.drop_last() =~= subscriptions@.take(i as int));
                assert(next.last() == subscriptions@[i as int]);
            }
            match subscriptions[i].action {
                SubscriptionAction::Subscribe => {
                    topics.push(subscriptions[i].topic_hash.clone());
                },
                SubscriptionAction::Unsubscribe => {},
            }
            i = i + 1;
        }
        assert(subscriptions@.take(i as int) =~= subscriptions@);
        if topics.len() > 0 {
            self.send_answer(propagation_source, topics);
        } else {
            assert(outgoing_views(self.events@) =~= outgoing_views(old(self).events@)
                + Seq::empty());
        }
    }

    /// Answers the prunes of a peer: each topic is to be grafted again after a delay.
    pub fn handle_prune(&self, peer_id: &str, prune_data: &Vec<Prune>) -> (regrafts: Vec<Regraft>)
        requires
            delays_countable(prune_data@),
        ensures
            answers(regrafts@, peer_id@, prune_data@),
    {
        let mut regrafts: Vec<Regraft> = Vec::new();
        let mut i: usize = 0;
        while i < prune_data.len()
            invariant
                delays_countable(prune_data@),
                i <= prune_data@.len(),
                answers(regrafts@, peer_id@, prune_data@.take(i as int)),
            decreases prune_data@.len() - i,
        {
            assert(regraft_delay(prune_data@[i as int].backoff) <= u64::MAX);
            let delay: u64 = match prune_data[i].backoff {
                Some(backoff) => backoff + PRUNE_BACKOFF_DELAY,
                None => PRUNE_BACKOFF + PRUNE_BACKOFF_DELAY,
            };
            regrafts.push(
                Regraft {
                    peer_id: peer_id.to_owned(),
                    topic_hash: prune_data[i].topic_hash.clone(),
                    delay,
                },
            );
            i = i + 1;
        }
        assert(prune_data@.take(i as int) =~= prune_data@);
        regrafts
    }

    /// Queues a message to a peer, in fragments where it is too large.
    pub fn send_message(&mut self, peer_id: &str, message: Rpc) -> (sent: Result<(), PublishError>)
        ensures
            match fragments(message@, MAX_TRANSMIT_SIZE as nat) {
                Ok(list) => sent is Ok && outgoing_views(final(self).events@) == outgoing_views(
                    old(self).events@,
                ) + addressed(peer_id@, list),
                Err(e) => sent == Err::<(), PublishError>(e) && final(self).events@
                    == old(self).events@,
            },
    {
        let list: Vec<Rpc> = self.fragment_message(message)?;
        let ghost before = outgoing_views(self.events@);
        let ghost all = list@;
        let ghost messages = addressed(peer_id@, rpc_views(all));
        assert(before + messages.take(0) =~= before);
        for rpc in it: list
            invariant
                it.seq() == all,
                messages == addressed(peer_id@, rpc_views(all)),
                outgoing_views(self.events@) == before + messages.take(it.index()),
        {
            let ghost queued = self.events@;
            let event = Outgoing { peer_id: peer_id.to_owned(), message: rpc };
            self.events.push_back(event);
            proof {
                assert(event@ == messages[it.index()]);
                assert(outgoing_views(self.events@) =~= outgoing_views(queued).push(event@));
                assert(outgoing_views(self.events@) =~= before + messages.take(it.index() + 1));
            }
        }
        assert(messages.take(all.len() as int) =~= messages);
        Ok(())
    }

    /// Cuts a message into fragments where it is too large to be sent as it is.
    pub fn fragment_message(&self, rpc: Rpc) -> (cut: Result<Vec<Rpc>, PublishError>)
        ensures
            match fragments(rpc@, MAX_TRANSMIT_SIZE as nat) {
                Ok(list) => cut is Ok && rpc_views(cut->Ok_0@) == list,
                Err(e) => cut == Err::<Vec<Rpc>, PublishError>(e),
            },
    {
        fragment(rpc, MAX_TRANSMIT_SIZE)
    }

    /// Queues subscriptions to some topics and grafts of them. A subscription that cannot be sent is
    /// left out.
    fn send_answer(&mut self, peer_id: &str, topics: Vec<String>)
        requires
            topics@.len() > 0,
        ensures
            outgoing_views(final(self).events@) == outgoing_views(old(self).events@)
                + answer_messages(peer_id@, topics@),
    {
        let ghost all = topics@;
        let ghost as_graft = |topic: String| ControlGraft { topic_id: Some(topic) };
        let mut subscriptions: Vec<SubOpts> = Vec::new();
        let mut graft: Vec<ControlGraft> = Vec::new();
        proof {
            reveal(Seq::filter);
            assert(subscriptions@ =~= answer_subscriptions(all.take(0)));
        }
        for topic in it: topics
            invariant
                it.seq() == all,
                as_graft == (|topic: String| ControlGraft { topic_id: Some(topic) }),
                subscriptions@ == answer_subscriptions(all.take(it.index())),
                graft@ =~= all.take(it.index()).map_values(as_graft),
        {
            let subscription = SubOpts { subscribe: Some(true), topic_id: Some(topic.clone()) };
            proof {
                reveal(Seq::filter);
                let next = all.take(it.index() + 1);
                assert(next.drop_last() =~= all.take(it.index()));
                assert(next.last() == topic);
                assert(answer_subscriptions(next) =~= if sendable(topic) {
                    answer_subscriptions(all.take(it.index())).push(subscription_to(topic))
                } else {
                    answer_subscriptions(all.take(it.index()))
                });
            }
            if subscription.encoded_len() <= MAX_TRANSMIT_SIZE - 2 {
                subscriptions.push(subscription);
            }
            graft.push(ControlGraft { topic_id: Some(topic) });
        }
        let rpc = Rpc {
            subscriptions,
            publish: Vec::new(),
            control: Some(
                ControlMessage { ihave: Vec::new(), iwant: Vec::new(), graft, prune: Vec::new() },
            ),
        };
        proof {
            assert(all.take(all.len() as int) =~= all);
            assert(graft@ =~= all.map_values(as_graft));
            assert(rpc@.control->Some_0 =~= answer_rpc(all).control->Some_0);
            assert(rpc@ =~= answer_rpc(all));
            answers_can_be_sent(all);
        }
        let _ = self.send_message(peer_id, rpc);
    }

    /// Queues a graft of some topics.
    fn send_grafts(&mut self, peer_id: &str, topics: Vec<String>)
        ensures
            outgoing_views(final(self).events@) == outgoing_views(old(self).events@)
                + graft_messages(peer_id@, topics@),
    {
        let ghost all = topics@;
        let ghost as_graft = |topic: String| ControlGraft { topic_id: Some(topic) };
        let mut graft: Vec<ControlGraft> = Vec::new();
        for topic in it: topics
            invariant
                it.seq() == all,
                as_graft == (|topic: String| ControlGraft { topic_id: Some(topic) }),
                graft@ =~= all.take(it.index()).map_values(as_graft),
        {
            graft.push(ControlGraft { topic_id: Some(topic) });
        }
        let rpc = Rpc {
            subscriptions: Vec::new(),
            publish: Vec::new(),
            control: Some(
                ControlMessage { ihave: Vec::new(), iwant: Vec::new(), graft, prune: Vec::new() },
            ),
        };
        proof {
            assert(graft@ =~= all.map_values(as_graft));
            assert(rpc@.control->Some_0 =~= graft_rpc(all).control->Some_0);
            assert(rpc@ =~= graft_rpc(all));
            grafts_can_be_sent(all);
        }
        let _ = self.send_message(peer_id, rpc);
    }

    /// Answers what a peer sent: the topics that it subscribes to are subscribed to and grafted at
    /// once, those that it pruned are grafted again after a delay, and its messages are censored.
    pub fn inject_event(&mut self, propagation_source: &str, rpc: ReceivedRpc) -> (regrafts: Vec<
        Regraft,
    >)
        requires
            delays_countable(prunes(rpc.control_msgs@)),
        ensures
            outgoing_views(final(self).events@) == outgoing_views(old(self).events@)
                + answer_messages(propagation_source@, subscribed(rpc.subscriptions@)),
            answers(regrafts@, propagation_source@, prunes(rpc.control_msgs@)),
    {
        let ReceivedRpc { subscriptions, control_msgs } = rpc;
        self.handle_received_subscriptions(&subscriptions, propagation_source);
        let ghost all = control_msgs@;
        let mut prune_msgs: Vec<Prune> = Vec::new();
        assert(all.take(0) =~= Seq::empty());
        for control_msg in it: control_msgs
            invariant
                it.seq() == all,
                prune_msgs@ == prunes(all.take(it.index())),
        {
            proof {
                let next = all.take(it.index() + 1);
                assert(next.drop_last() =~= all.take(it.index()));
                assert(next.last() == control_msg);
            }
            match control_msg {
                ControlAction::IHave | ControlAction::IWant | ControlAction::Graft => {},
                ControlAction::Prune(prune) => {
                    prune_msgs.push(prune);
                },
            }
        }
        assert(all.take(all.len() as int) =~= all);
        self.handle_prune(propagation_source, &prune_msgs)
    }

    /// The next message that is to be sent.
    pub fn next_event(&mut self) -> (event: Option<Outgoing>)
        ensures
            match event {
                Some(event) => old(self).events@.len() > 0 && event == old(self).events@[0]
                    && final(self).events@ == old(self).events@.drop_first(),
                None => old(self).events@.len() == 0 && final(self).events@ == old(self).events@,
            },
    {
        let event: Option<Outgoing> = self.events.pop_front();
        assert(event is Some ==> self.events@ =~= old(self).events@.drop_first());
        event
    }

    /// Grafts a topic again, the delay after a prune being over.
    pub fn regraft(&mut self, peer_id: &str, topic_hash: String)
        ensures
            outgoing_views(final(self).events@) == outgoing_views(old(self).events@)
                + graft_messages(peer_id@, seq![topic_hash]),
    {
        let mut topics: Vec<String> = Vec::new();
        topics.push(topic_hash);
        assert(topics@ =~= seq![topic_hash]);
        self.send_grafts(peer_id, topics);
    }
}

/// Whether the node at place `k` is the one to censor: it runs validators, no node runs more, and
/// all nodes before it run fewer.
pub open spec fn is_target(infos: Seq<(usize, BeaconNodeInfo)>, k: int) -> bool {
    &&& 0 <= k < infos.len()
    &&& infos[k].1.validators@.len() > 0
    &&& forall|i: int|
        0 <= i < infos.len() ==> (#[trigger] infos[i]).1.validators@.len()
            <= infos[k].1.validators@.len()
    &&& forall|i: int|
        0 <= i < k ==> (#[trigger] infos[i]).1.validators@.len() < infos[k].1.validators@.len()
}

/// The node to censor: the first of those that run the most validators. Where no node runs any, it
/// is node zero.
pub fn choose_target(infos: &Vec<(usize, BeaconNodeInfo)>) -> (target: usize)
    ensures
        (exists|k: int| #[trigger] is_target(infos@, k) && infos@[k].0 == target) || (target == 0
            && forall|i: int|
            0 <= i < infos@.len() ==> (#[trigger] infos@[i]).1.validators@.len() == 0),
{
    let mut num_vals: usize = 0;
    let mut target: usize = 0;
    let mut i: usize = 0;
    let ghost mut place: int = 0;
    while i < infos.len()
        invariant
            i <= infos@.len(),
            forall|j: int| 0 <= j < i ==> (#[trigger] infos@[j]).1.validators@.len() <= num_vals,
            num_vals == 0 ==> target == 0,
            num_vals > 0 ==> {
                &&& 0 <= place < i
                &&& infos@[place].0 == target
                &&& infos@[place].1.validators@.len() == num_vals
                &&& forall|j: int|
                    0 <= j < place ==> (#[trigger] infos@[j]).1.validators@.len() < num_vals
            },
        decreases infos@.len() - i,
    {
        let count: usize = infos[i].1.validators.len();
        if count > num_vals {
            num_vals = count;
            target = infos[i].0;
            proof {
                place = i as int;
            }
        }
        i = i + 1;
    }
    proof {
        if num_vals > 0 {
            assert(is_target(infos@, place));
        }
    }
    target
}

} // verus!
