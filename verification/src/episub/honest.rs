//! A node that publishes while it is told to.

pub use crate::emulation::honest::TestParams;

use vstd::prelude::*;

verus! {

/// How many seconds a pruned peer has to wait.
pub const PRUNE_BACKOFF: u64 = 60;

/// How long gossipsub remembers messages, in heartbeats.
pub const HISTORY_LENGTH: usize = 12;

/// The message that is published.
pub const MESSAGE: &'static str = "message";

/// What a node is told.
#[derive(Debug)]
pub enum HonestMessage {
    Subscribe(String),
    StartPublishing,
    StopPublishing,
}

/// Whether a node publishes.
#[derive(Clone, Copy, Debug, PartialEq, Eq, Structural)]
pub enum PublishState {
    /// It was not told to yet.
    Awaiting,
    /// It publishes.
    Started,
    /// It was told to stop.
    Stopped,
}

/// What happens at a node.
#[derive(Debug)]
pub enum Event {
    /// The scores are due.
    ScoresDue,
    /// A message is due.
    PublishDue,
    /// Something happened on the transport.
    Swarm,
    /// The node is told something.
    Told(HonestMessage),
}

/// What is to be done about an event.
#[derive(Debug)]
pub enum Action {
    /// Publish a message to a topic.
    Publish { topic: String, message: String },
    /// Subscribe to a topic.
    Subscribe(String),
    /// Go on.
    Nothing,
}

/// A node.
#[derive(Debug)]
pub struct HonestNetwork {
    /// How many milliseconds pass between two messages.
    pub publish_interval: u64,
    pub publish_state: PublishState,
    pub topic: String,
}

impl HonestNetwork {
    /// A node that waits to be told to publish.
    pub fn new(topic: &str, test_params: &TestParams) -> (network: Self)
        requires
            test_params.message_rate > 0,
        ensures
            network.publish_interval == test_params.interval(),
            network.publish_state == PublishState::Awaiting,
            network.topic@ == topic@,
    {
        HonestNetwork {
            publish_interval: test_params.publish_interval(),
            publish_state: PublishState::Awaiting,
            topic: topic.to_owned(),
        }
    }

    /// Decides what is to be done about an event. A message that is due is published only after the
    /// node was told to start and before it was told to stop.
    pub fn on_event(&mut self, event: Event) -> (action: Action)
        ensures
            *final(self) == (HonestNetwork {
                publish_state: match event {
                    Event::Told(HonestMessage::StartPublishing) => PublishState::Started,
                    Event::Told(HonestMessage::StopPublishing) => PublishState::Stopped,
                    _ => old(self).publish_state,
                },
                ..*old(self)
            }),
            match event {
                Event::PublishDue => if old(self).publish_state == PublishState::Started {
                    &&& action is Publish
                    &&& action->Publish_topic@ == old(self).topic@
                    &&& action->Publish_message@ == MESSAGE@
                } else {
                    action is Nothing
                },
                Event::Told(HonestMessage::Subscribe(topic)) => action == Action::Subscribe(topic),
                _ => action is Nothing,
            },
    {
        match event {
            Event::ScoresDue | Event::Swarm => Action::Nothing,
            Event::PublishDue => match self.publish_state {
                PublishState::Started => Action::Publish {
                    topic: self.topic.clone(),
                    message: MESSAGE.to_owned(),
                },
                PublishState::Awaiting | PublishState::Stopped => Action::Nothing,
            },
            Event::Told(HonestMessage::Subscribe(topic)) => Action::Subscribe(topic),
            Event::Told(HonestMessage::StartPublishing) => {
                self.publish_state = PublishState::Started;
                Action::Nothing
            },
            Event::Told(HonestMessage::StopPublishing) => {
                self.publish_state = PublishState::Stopped;
                Action::Nothing
            },
        }
    }
}

} // verus!
