//! A smoke test: every instance publishes one message and waits for those of all others.

pub mod laws;
pub mod run;

use crate::instance_params::{number_at, InstanceParams};
use crate::rng::{rearranged, shuffle_with_std_rng, std_rng_shuffle};
use crate::text::same_text;
use vstd::hash_set::StringHashSet;
use vstd::prelude::*;

verus! {

/// The topic that is published to.
pub const TOPIC: &'static str = "smoke";

/// The message that is published.
pub const MESSAGE: &'static str = "message";

/// Reads how long gossipsub remembers messages, in heartbeats.
pub fn history_length(instance_params: &InstanceParams) -> (parsed: Result<usize, String>)
    ensures
        ({
            let number = number_at(
                instance_params@,
                "gossipsub_history_length"@,
                "gossipsub_history_length is not specified"@,
                ""@,
                usize::MAX as nat,
            );
            match parsed {
                Ok(n) => number == Ok::<nat, Seq<char>>(n as nat),
                Err(e) => number == Err::<nat, Seq<char>>(e@),
            }
        }),
{
    instance_params.size(
        "gossipsub_history_length",
        "gossipsub_history_length is not specified",
        "",
    )
}

/// The addresses of the other instances.
pub open spec fn other_addresses(addresses: Seq<String>, own: Seq<char>) -> Seq<String> {
    addresses.filter(|address: String| address@ != own)
}

/// The instance to connect to: the last of the others in random order. The order depends on the seed
/// alone. `None` means that there are no others.
pub fn select_peer(addresses: Vec<String>, own: &str, seed: u64) -> (selected: Option<String>)
    ensures
        ({
            let others = other_addresses(addresses@, own@);
            match selected {
                Some(address) => others.len() > 0 && address == rearranged(
                    others,
                    std_rng_shuffle(seed, others.len()),
                ).last() && addresses@.contains(address) && address@ != own@,
                None => others.len() == 0,
            }
        }),
{
    let ghost all = addresses@;
    let mut others: Vec<String> = Vec::new();
    proof {
        reveal(Seq::filter);
        assert(all.take(0) =~= Seq::empty());
    }
    for address in it: addresses
        invariant
            it.seq() == all,
            others@ == other_addresses(all.take(it.index()), own@),
            forall|k: int|
                0 <= k < others@.len() ==> all.contains(#[trigger] others@[k]) && others@[k]@
                    != own@,
    {
        proof {
            reveal(Seq::filter);
            let next = all.take(it.index() + 1);
            assert(next.drop_last() =~= all.take(it.index()));
            assert(next.last() == address);
            assert(all[it.index()] == address);
        }
        if !same_text(address.as_str(), own) {
            others.push(address);
        }
    }
    assert(all.take(all.len() as int) =~= all);
    let ghost before = others@;
    shuffle_with_std_rng(seed, &mut others);
    proof {
        crate::ordered::lemma_same_items(others@, before);
        if others@.len() > 0 {
            assert(others@.contains(others@.last()));
            let k = choose|k: int| 0 <= k < before.len() && before[k] == others@.last();
            assert(all.contains(before[k]));
        }
    }
    others.pop()
}

/// What happens on the transport.
#[derive(Debug)]
pub enum Event {
    /// A connection that this instance dialed is established.
    Dialed,
    /// A peer subscribed to a topic.
    Subscribed,
    /// A message was received.
    Message { source: String },
    /// Gossipsub tells something else.
    Gossipsub,
    /// Something else.
    Other,
}

/// What is waited for.
#[derive(Clone, Copy, Debug)]
pub enum Phase {
    /// All instances are to signal a state.
    Barrier,
    /// The connection is to be established.
    Connecting,
    /// So many connected peers are to be subscribed.
    Subscribing { all_peers: usize },
    /// Of so many instances, the messages of all others are to be received.
    Receiving { instances: u64 },
}

/// What an event means.
#[derive(Clone, Copy, Debug, PartialEq, Eq, Structural)]
pub enum Progress {
    /// There is more to wait for.
    Waiting,
    /// What was waited for has happened.
    Done,
    /// A message of one source was received twice.
    Duplicate,
}

/// What an instance saw.
#[verifier::ext_equal]
pub struct SmokeView {
    /// How many subscriptions were seen.
    pub subscribed: nat,
    /// The sources of the messages that were received.
    pub sources: Set<Seq<char>>,
}

/// Whether an event can come. While subscriptions are waited for, no instance publishes yet.
pub open spec fn expected(phase: Phase, event: Event) -> bool {
    phase is Subscribing ==> !(event is Message || event is Gossipsub)
}

impl SmokeView {
    /// Whether there is something to wait for.
    pub open spec fn waits(self, phase: Phase) -> bool {
        match phase {
            Phase::Barrier | Phase::Connecting => true,
            Phase::Subscribing { all_peers } => self.subscribed < all_peers,
            Phase::Receiving { instances } => self.sources.len() < instances - 1,
        }
    }

    /// What was seen after an event. Subscriptions are counted at barriers and while subscriptions
    /// are waited for, messages at barriers and while messages are waited for.
    pub open spec fn after(self, phase: Phase, event: Event) -> SmokeView {
        match (phase, event) {
            (Phase::Barrier | Phase::Subscribing { .. }, Event::Subscribed) => SmokeView {
                subscribed: self.subscribed + 1,
                ..self
            },
            (Phase::Barrier | Phase::Receiving { .. }, Event::Message { source }) => SmokeView {
                sources: self.sources.insert(source@),
                ..self
            },
            _ => self,
        }
    }

    /// What an event means.
    pub open spec fn progress(self, phase: Phase, event: Event) -> Progress {
        match (phase, event) {
            (Phase::Connecting, Event::Dialed) => Progress::Done,
            (Phase::Subscribing { all_peers }, Event::Subscribed) => if self.subscribed + 1
                == all_peers {
                Progress::Done
            } else {
                Progress::Waiting
            },
            (Phase::Barrier, Event::Message { source }) => if self.sources.contains(source@) {
                Progress::Duplicate
            } else {
                Progress::Waiting
            },
            (Phase::Receiving { instances }, Event::Message { source }) => if self.sources.contains(
                source@,
            ) {
                Progress::Duplicate
            } else if self.sources.insert(source@).len() == instances - 1 {
                Progress::Done
            } else {
                Progress::Waiting
            },
            _ => Progress::Waiting,
        }
    }
}

/// Waiting ends exactly when all peers are subscribed or the messages of all other instances are
/// received: an event means that it is done if and only if nothing is left to wait for after it.
pub proof fn waiting_ends_when_done(view: SmokeView, phase: Phase, event: Event)
    requires
        phase is Subscribing || phase is Receiving,
        view.sources.finite(),
        view.waits(phase),
    ensures
        view.progress(phase, event) == Progress::Done <==> !view.after(phase, event).waits(phase),
        view.progress(phase, event) == Progress::Duplicate ==> view.after(phase, event) == view,
{
    if let Event::Message { source } = event {
        if view.sources.contains(source@) {
            assert(view.sources.insert(source@) =~= view.sources);
        }
    }
}

/// What an instance saw.
pub struct Smoke {
    /// How many subscriptions were seen.
    pub subscribed: usize,
    /// The sources of the messages that were received.
    pub sources: StringHashSet,
}

impl View for Smoke {
    type V = SmokeView;

    open spec fn view(&self) -> SmokeView {
        SmokeView { subscribed: self.subscribed as nat, sources: self.sources@ }
    }
}

impl Smoke {
    /// An instance that saw nothing yet.
    pub fn new() -> (smoke: Self)
        ensures
            smoke@ == (SmokeView { subscribed: 0, sources: Set::empty() }),
    {
        Smoke { subscribed: 0, sources: StringHashSet::new() }
    }

    /// Whether there is something to wait for.
    pub fn must_wait(&self, phase: &Phase) -> (wait: bool)
        requires
            phase matches Phase::Receiving { instances } ==> instances > 0,
        ensures
            wait == self@.waits(*phase),
    {
        match phase {
            Phase::Barrier | Phase::Connecting => true,
            Phase::Subscribing { all_peers } => self.subscribed < *all_peers,
            Phase::Receiving { instances } => (self.sources.len() as u64) < *instances - 1,
        }
    }

    /// Takes an event and tells what it means.
    pub fn on_event(&mut self, phase: &Phase, event: Event) -> (progress: Progress)
        requires
            expected(*phase, event),
            event is Subscribed ==> old(self).subscribed < usize::MAX,
            phase matches Phase::Receiving { instances } ==> instances > 0,
        ensures
            final(self)@ == old(self)@.after(*phase, event),
            progress == old(self)@.progress(*phase, event),
    {
        match (phase, event) {
            (Phase::Barrier, Event::Subscribed) => {
                self.subscribed = self.subscribed + 1;
                Progress::Waiting
            },
            (Phase::Subscribing { all_peers }, Event::Subscribed) => {
                self.subscribed = self.subscribed + 1;
                if self.subscribed == *all_peers {
                    Progress::Done
                } else {
                    Progress::Waiting
                }
            },
            (Phase::Barrier, Event::Message { source }) => {
                if self.sources.insert(source) {
                    Progress::Waiting
                } else {
                    Progress::Duplicate
                }
            },
            (Phase::Receiving { instances }, Event::Message { source }) => {
                if !self.sources.insert(source) {
                    Progress::Duplicate
                } else if self.sources.len() as u64 == *instances - 1 {
                    Progress::Done
                } else {
                    Progress::Waiting
                }
            },
            (Phase::Connecting, Event::Dialed) => Progress::Done,
            _ => Progress::Waiting,
        }
    }
}

/// What is counted.
#[derive(Clone, Copy, Debug, PartialEq, Eq, Structural)]
pub enum Counted {
    /// Connections that this instance dialed.
    Connections,
    /// Subscriptions of peers.
    Subscriptions,
    /// Messages.
    Messages,
}

impl Counted {
    /// Whether an event counts.
    pub open spec fn takes(self, event: Event) -> bool {
        match self {
            Counted::Connections => event is Dialed,
            Counted::Subscriptions => event is Subscribed,
            Counted::Messages => event is Message,
        }
    }

    /// Whether an event can come. While subscriptions are counted, gossipsub tells nothing else.
    pub open spec fn expects(self, event: Event) -> bool {
        self is Subscriptions ==> !(event is Message || event is Gossipsub)
    }

    /// Whether an event can come.
    pub fn can_come(&self, event: &Event) -> (can: bool)
        ensures
            can == self.expects(*event),
    {
        match (self, event) {
            (Counted::Subscriptions, Event::Message { .. } | Event::Gossipsub) => false,
            _ => true,
        }
    }
}

/// Counts events up to a goal.
#[derive(Debug)]
pub struct Tally {
    pub count: u64,
    pub goal: u64,
}

impl Tally {
    /// Counts one more event. Tells whether the goal is reached.
    pub fn hit(&mut self) -> (reached: bool)
        requires
            old(self).count < u64::MAX,
        ensures
            final(self).count == old(self).count + 1,
            final(self).goal == old(self).goal,
            reached == (final(self).count == final(self).goal),
    {
        self.count = self.count + 1;
        self.count == self.goal
    }

    /// Counts an event where it counts. Tells whether the goal is reached by it.
    pub fn on_event(&mut self, counted: Counted, event: &Event) -> (reached: bool)
        requires
            counted.expects(*event),
            counted.takes(*event) ==> old(self).count < u64::MAX,
        ensures
            final(self).goal == old(self).goal,
            final(self).count == old(self).count + if counted.takes(*event) {
                1int
            } else {
                0
            },
            reached == (counted.takes(*event) && final(self).count == final(self).goal),
    {
        match (counted, event) {
            (Counted::Connections, Event::Dialed)
            | (Counted::Subscriptions, Event::Subscribed)
            | (Counted::Messages, Event::Message { .. }) => self.hit(),
            _ => false,
        }
    }
}

} // verus!
