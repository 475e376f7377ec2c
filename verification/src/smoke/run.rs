//! The course of a smoke test.

use super::{
    expected, other_addresses, select_peer, Event, Phase, Progress, Smoke, SmokeView, MESSAGE, TOPIC,
};
use crate::rng::{rearranged, std_rng_shuffle};
use vstd::prelude::*;

verus! {

/// The state that is signalled when the transport listens.
pub const STARTED_LISTENING: &'static str = "Started listening";

/// The state that is signalled when a peer is connected.
pub const CONNECTED_TO_PEER: &'static str = "Connected to a peer";

/// The state that is signalled when the connected peers are subscribed.
pub const SUBSCRIBED_TOPIC: &'static str = "Subscribed a topic";

/// The state that is signalled when all messages are received.
pub const PUBLISHED_MESSAGE: &'static str = "Published a message";

/// How far a run has come.
#[derive(Clone, Copy, Debug, PartialEq, Eq, Structural)]
pub enum Stage {
    /// All instances are to listen.
    Listening,
    /// The addresses of the instances are to be collected.
    Collecting,
    /// The connection to a peer is to be established.
    Connecting,
    /// All instances are to be connected.
    Connected,
    /// The topic is to be subscribed to.
    JoiningTopic,
    /// The connected peers are to be subscribed.
    Subscribing { all_peers: usize },
    /// All instances are to be subscribed.
    Subscribed,
    /// The message is to be published.
    Publishing,
    /// The messages of all other instances are to be received.
    Receiving,
    /// All instances are to have received all messages.
    Received,
    /// The run is over.
    Succeeded,
    /// The run is over: a message was received twice.
    Failed,
}

/// What happens during a run.
#[derive(Debug)]
pub enum RunEvent {
    /// All instances signalled the state that was waited for.
    BarrierPassed,
    /// The addresses of all instances were collected.
    Collected { addresses: Vec<String>, own: String },
    /// The topic was subscribed to, with that many peers connected.
    JoinedTopic { all_peers: usize },
    /// The message was published.
    Published,
    /// Something happened on the transport.
    Swarm(Event),
}

/// What is to be done about an event.
#[derive(Debug)]
pub enum RunAction {
    /// Signal a state and wait until all instances have.
    SignalAndWait(String),
    /// Publish the own address and collect those of all instances.
    Collect,
    /// Dial an address.
    Dial(String),
    /// Subscribe to a topic.
    Subscribe(String),
    /// Publish a message to a topic.
    Publish { topic: String, message: String },
    /// Report success.
    RecordSuccess,
    /// Report that a message was received twice.
    RecordFailure,
    /// Go on.
    Nothing,
}

/// What a [`RunAction`] stands for.
pub enum RunActionView {
    SignalAndWait(Seq<char>),
    Collect,
    Dial(Seq<char>),
    Subscribe(Seq<char>),
    Publish { topic: Seq<char>, message: Seq<char> },
    RecordSuccess,
    RecordFailure,
    Nothing,
}

impl View for RunAction {
    type V = RunActionView;

    open spec fn view(&self) -> RunActionView {
        match self {
            RunAction::SignalAndWait(state) => RunActionView::SignalAndWait(state@),
            RunAction::Collect => RunActionView::Collect,
            RunAction::Dial(address) => RunActionView::Dial(address@),
            RunAction::Subscribe(topic) => RunActionView::Subscribe(topic@),
            RunAction::Publish { topic, message } => RunActionView::Publish {
                topic: topic@,
                message: message@,
            },
            RunAction::RecordSuccess => RunActionView::RecordSuccess,
            RunAction::RecordFailure => RunActionView::RecordFailure,
            RunAction::Nothing => RunActionView::Nothing,
        }
    }
}

/// How far a run has come and what it saw.
#[verifier::ext_equal]
pub struct RunView {
    pub stage: Stage,
    /// How many instances take part.
    pub instances: u64,
    /// Whether a message that is received twice at a barrier ends the run.
    pub strict: bool,
    pub seen: SmokeView,
}

/// What is waited for at a stage, where something on the transport is.
pub open spec fn phase_of(stage: Stage, instances: u64) -> Option<Phase> {
    match stage {
        Stage::Listening | Stage::Connected | Stage::Subscribed | Stage::Received => Some(
            Phase::Barrier,
        ),
        Stage::Connecting => Some(Phase::Connecting),
        Stage::Subscribing { all_peers } => Some(Phase::Subscribing { all_peers }),
        Stage::Receiving => Some(Phase::Receiving { instances }),
        _ => None,
    }
}

impl RunView {
    /// A run with something signalled and waited for.
    pub open spec fn at_barrier(self, stage: Stage, state: Seq<char>) -> (RunView, RunActionView) {
        (RunView { stage, ..self }, RunActionView::SignalAndWait(state))
    }

    /// What follows when what was waited for on the transport has happened.
    pub open spec fn advanced(self) -> (RunView, RunActionView) {
        match self.stage {
            Stage::Connecting => self.at_barrier(Stage::Connected, CONNECTED_TO_PEER@),
            Stage::Subscribing { .. } => self.at_barrier(Stage::Subscribed, SUBSCRIBED_TOPIC@),
            Stage::Receiving => self.at_barrier(Stage::Received, PUBLISHED_MESSAGE@),
            _ => (self, RunActionView::Nothing),
        }
    }

    /// What follows something on the transport.
    pub open spec fn after_swarm(self, phase: Phase, event: Event) -> (RunView, RunActionView) {
        let next = RunView { seen: self.seen.after(phase, event), ..self };
        match self.seen.progress(phase, event) {
            Progress::Waiting => (next, RunActionView::Nothing),
            Progress::Done => next.advanced(),
            Progress::Duplicate => if phase is Barrier && !self.strict {
                (next, RunActionView::Nothing)
            } else {
                (RunView { stage: Stage::Failed, ..next }, RunActionView::RecordFailure)
            },
        }
    }

    /// What follows a barrier that all instances have passed.
    pub open spec fn after_barrier(self) -> (RunView, RunActionView) {
        match self.stage {
            Stage::Listening => (
                RunView { stage: Stage::Collecting, ..self },
                RunActionView::Collect,
            ),
            Stage::Connected => (
                RunView { stage: Stage::JoiningTopic, ..self },
                RunActionView::Subscribe(TOPIC@),
            ),
            Stage::Subscribed => (
                RunView { stage: Stage::Publishing, ..self },
                RunActionView::Publish { topic: TOPIC@, message: MESSAGE@ },
            ),
            Stage::Received => (
                RunView { stage: Stage::Succeeded, ..self },
                RunActionView::RecordSuccess,
            ),
            _ => (self, RunActionView::Nothing),
        }
    }

    /// A run that waits at `stage` where there is something to wait for, and goes on otherwise.
    pub open spec fn waiting_at(self, stage: Stage) -> (RunView, RunActionView) {
        let next = RunView { stage, ..self };
        if self.seen.waits(phase_of(stage, self.instances)->Some_0) {
            (next, RunActionView::Nothing)
        } else {
            next.advanced()
        }
    }

    /// Whether an event can come at this stage.
    pub open spec fn awaits(self, event: RunEvent) -> bool {
        match event {
            RunEvent::BarrierPassed => self.stage == Stage::Listening || self.stage
                == Stage::Connected || self.stage == Stage::Subscribed || self.stage
                == Stage::Received,
            RunEvent::Collected { addresses, own } => self.stage == Stage::Collecting
                && other_addresses(addresses@, own@).len() > 0,
            RunEvent::JoinedTopic { .. } => self.stage == Stage::JoiningTopic,
            RunEvent::Published => self.stage == Stage::Publishing,
            RunEvent::Swarm(swarm_event) => match phase_of(self.stage, self.instances) {
                Some(phase) => expected(phase, swarm_event) && (swarm_event is Subscribed
                    ==> self.seen.subscribed < usize::MAX),
                None => false,
            },
        }
    }

    /// What follows an event.
    pub open spec fn step(self, event: RunEvent) -> (RunView, RunActionView) {
        match event {
            RunEvent::BarrierPassed => self.after_barrier(),
            RunEvent::Collected { addresses, own } => {
                let others = other_addresses(addresses@, own@);
                (
                    RunView { stage: Stage::Connecting, ..self },
                    RunActionView::Dial(
                        rearranged(others, std_rng_shuffle(self.instances, others.len())).last()@,
                    ),
                )
            },
            RunEvent::JoinedTopic { all_peers } => self.waiting_at(Stage::Subscribing { all_peers }),
            RunEvent::Published => self.waiting_at(Stage::Receiving),
            RunEvent::Swarm(swarm_event) => self.after_swarm(
                phase_of(self.stage, self.instances)->Some_0,
                swarm_event,
            ),
        }
    }

    /// What holds throughout a run: once it no longer waits for messages, those of all other
    /// instances are received.
    pub open spec fn sound(self) -> bool {
        &&& self.instances > 0
        &&& self.seen.sources.finite()
        &&& self.stage == Stage::Received || self.stage == Stage::Succeeded
            ==> self.seen.sources.len() >= self.instances - 1
    }
}

/// A run succeeds only when the messages of all other instances were received: this holds at the
/// start, and every event keeps it.
pub proof fn success_means_all_received(run: RunView, event: RunEvent)
    requires
        run.sound(),
        run.awaits(event),
    ensures
        run.step(event).0.sound(),
        run.step(event).1 == RunActionView::RecordSuccess ==> run.seen.sources.len()
            >= run.instances - 1,
{
    if let RunEvent::Swarm(swarm_event) = event {
        let phase = phase_of(run.stage, run.instances)->Some_0;
        if let Event::Message { source } = swarm_event {
            if run.seen.sources.contains(source@) {
                assert(run.seen.sources.insert(source@) =~= run.seen.sources);
            }
        }
        assert(run.seen.after(phase, swarm_event).sources.finite());
    }
}

/// A run of the smoke test.
pub struct SmokeRun {
    pub stage: Stage,
    /// How many instances take part.
    pub instances: u64,
    /// Whether a message that is received twice at a barrier ends the run.
    pub strict: bool,
    pub seen: Smoke,
}

impl View for SmokeRun {
    type V = RunView;

    open spec fn view(&self) -> RunView {
        RunView {
            stage: self.stage,
            instances: self.instances,
            strict: self.strict,
            seen: self.seen@,
        }
    }
}

impl SmokeRun {
    /// A run that starts to listen, and the first thing to be done.
    pub fn new(instances: u64, strict: bool) -> (start: (Self, RunAction))
        requires
            instances > 0,
        ensures
            start.0@ == (RunView {
                stage: Stage::Listening,
                instances,
                strict,
                seen: SmokeView { subscribed: 0, sources: Set::empty() },
            }),
            start.0@.sound(),
            start.1@ == RunActionView::SignalAndWait(STARTED_LISTENING@),
    {
        (
            SmokeRun { stage: Stage::Listening, instances, strict, seen: Smoke::new() },
            RunAction::SignalAndWait(STARTED_LISTENING.to_owned()),
        )
    }

    /// Takes an event and tells what is to be done about it.
    pub fn step(&mut self, event: RunEvent) -> (action: RunAction)
        requires
            old(self)@.sound(),
            old(self)@.awaits(event),
        ensures
            (final(self)@, action@) == old(self)@.step(event),
            final(self)@.sound(),
    {
        proof {
            success_means_all_received(self@, event);
        }
        match event {
            RunEvent::BarrierPassed => self.pass_barrier(),
            RunEvent::Collected { addresses, own } => {
                self.stage = Stage::Connecting;
                match select_peer(addresses, own.as_str(), self.instances) {
                    Some(address) => RunAction::Dial(address),
                    None => RunAction::Nothing,
                }
            },
            RunEvent::JoinedTopic { all_peers } => {
                self.stage = Stage::Subscribing { all_peers };
                if self.seen.must_wait(&Phase::Subscribing { all_peers }) {
                    RunAction::Nothing
                } else {
                    self.advance()
                }
            },
            RunEvent::Published => {
                self.stage = Stage::Receiving;
                if self.seen.must_wait(&Phase::Receiving { instances: self.instances }) {
                    RunAction::Nothing
                } else {
                    self.advance()
                }
            },
            RunEvent::Swarm(swarm_event) => {
                let phase: Phase = match self.stage {
                    Stage::Connecting => Phase::Connecting,
                    Stage::Subscribing { all_peers } => Phase::Subscribing { all_peers },
                    Stage::Receiving => Phase::Receiving { instances: self.instances },
                    _ => Phase::Barrier,
                };
                let at_barrier: bool = matches!(phase, Phase::Barrier);
                match self.seen.on_event(&phase, swarm_event) {
                    Progress::Waiting => RunAction::Nothing,
                    Progress::Done => self.advance(),
                    Progress::Duplicate => {
                        if at_barrier && !self.strict {
                            RunAction::Nothing
                        } else {
                            self.stage = Stage::Failed;
                            RunAction::RecordFailure
                        }
                    },
                }
            },
        }
    }

    /// Goes on when what was waited for on the transport has happened.
    fn advance(&mut self) -> (action: RunAction)
        ensures
            (final(self)@, action@) == old(self)@.advanced(),
    {
        match self.stage {
            Stage::Connecting => {
                self.stage = Stage::Connected;
                RunAction::SignalAndWait(CONNECTED_TO_PEER.to_owned())
            },
            Stage::Subscribing { .. } => {
                self.stage = Stage::Subscribed;
                RunAction::SignalAndWait(SUBSCRIBED_TOPIC.to_owned())
            },
            Stage::Receiving => {
                self.stage = Stage::Received;
                RunAction::SignalAndWait(PUBLISHED_MESSAGE.to_owned())
            },
            _ => RunAction::Nothing,
        }
    }

    /// Goes on when all instances have passed a barrier.
    fn pass_barrier(&mut self) -> (action: RunAction)
        ensures
            (final(self)@, action@) == old(self)@.after_barrier(),
    {
        match self.stage {
            Stage::Listening => {
                self.stage = Stage::Collecting;
                RunAction::Collect
            },
            Stage::Connected => {
                self.stage = Stage::JoiningTopic;
                RunAction::Subscribe(TOPIC.to_owned())
            },
            Stage::Subscribed => {
                self.stage = Stage::Publishing;
                RunAction::Publish { topic: TOPIC.to_owned(), message: MESSAGE.to_owned() }
            },
            Stage::Received => {
                self.stage = Stage::Succeeded;
                RunAction::RecordSuccess
            },
            _ => RunAction::Nothing,
        }
    }
}

} // verus!
