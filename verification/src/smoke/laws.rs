//! What holds of every run of the smoke test.

use super::run::{phase_of, RunActionView, RunEvent, RunView, Stage};
use super::{expected, other_addresses, Counted, Event, Phase, Progress, SmokeView};
use crate::rng::std_rng_shuffle;
use vstd::prelude::*;

verus! {

/// The addresses of the other instances are all but the own one, in their order.
pub proof fn own_address_is_left_out(addresses: Seq<String>, address: String, own: Seq<char>)
    ensures
        other_addresses(Seq::empty(), own).len() == 0,
        other_addresses(addresses.push(address), own) == if address@ == own {
            other_addresses(addresses, own)
        } else {
            other_addresses(addresses, own).push(address)
        },
{
    reveal(Seq::filter);
    assert(addresses.push(address).drop_last() =~= addresses);
}

/// Subscriptions count at barriers and while they are waited for, and sources of messages at barriers and
/// while messages are waited for. No other event changes what was seen.
pub proof fn events_are_counted(seen: SmokeView, phase: Phase, event: Event)
    ensures
        ({
            let after = seen.after(phase, event);
            let counted = phase is Barrier || phase is Subscribing;
            let received = phase is Barrier || phase is Receiving;
            &&& event is Subscribed && counted ==> after.subscribed == seen.subscribed + 1
            &&& !(event is Subscribed && counted) ==> after.subscribed == seen.subscribed
            &&& event matches Event::Message { source } ==> received ==> after.sources
                == seen.sources.insert(source@)
            &&& !(event is Message && received) ==> after.sources == seen.sources
        }),
{
}

/// A message is a duplicate exactly where its source was seen before, at a barrier or while messages are
/// waited for.
pub proof fn second_messages_are_duplicates(seen: SmokeView, phase: Phase, event: Event)
    ensures
        seen.progress(phase, event) == Progress::Duplicate <==> (phase is Barrier || phase
            is Receiving) && (event matches Event::Message { source } && seen.sources.contains(
            source@,
        )),
{
}

/// A phase is done with the connection, with the last subscription, or with the message of the last
/// source that was missing. Events never end a barrier.
pub proof fn phases_are_done_with_their_last_event(seen: SmokeView, phase: Phase, event: Event)
    ensures
        seen.progress(phase, event) == Progress::Done <==> match phase {
            Phase::Barrier => false,
            Phase::Connecting => event is Dialed,
            Phase::Subscribing { all_peers } => event is Subscribed && seen.subscribed + 1
                == all_peers,
            Phase::Receiving { instances } => event matches Event::Message { source }
                && !seen.sources.contains(source@) && seen.sources.insert(source@).len() + 1
                == instances,
        },
{
}

/// There is something to wait for at barriers and for the connection, and as long as subscriptions or
/// sources of messages are missing.
pub proof fn phases_wait_for_what_is_missing(seen: SmokeView, phase: Phase, event: Event)
    ensures
        seen.waits(phase) <==> match phase {
            Phase::Barrier => true,
            Phase::Connecting => true,
            Phase::Subscribing { all_peers } => seen.subscribed < all_peers,
            Phase::Receiving { instances } => seen.sources.len() + 1 < instances,
        },
        !expected(phase, event) <==> phase is Subscribing && (event is Message || event
            is Gossipsub),
{
}

/// What is counted: connections, subscriptions or messages. While subscriptions are counted, neither
/// messages nor other words of gossipsub are expected.
pub proof fn each_count_takes_its_events(counted: Counted, event: Event)
    ensures
        counted.takes(event) <==> (counted is Connections && event is Dialed) || (counted
            is Subscriptions && event is Subscribed) || (counted is Messages && event is Message),
        !counted.expects(event) <==> counted is Subscriptions && (event is Message || event
            is Gossipsub),
{
}

/// What is waited for in a stage.
pub proof fn stages_have_their_phase(stage: Stage, instances: u64)
    ensures
        match phase_of(stage, instances) {
            Some(Phase::Barrier) => stage is Listening || stage is Connected || stage is Subscribed
                || stage is Received,
            Some(Phase::Connecting) => stage is Connecting,
            Some(Phase::Subscribing { all_peers }) => stage == (Stage::Subscribing { all_peers }),
            Some(Phase::Receiving { instances: all }) => stage is Receiving && all == instances,
            None => stage is Collecting || stage is JoiningTopic || stage is Publishing || stage
                is Succeeded || stage is Failed,
        },
{
}

/// Behind a barrier comes the next step: collect addresses, subscribe, publish, and in the end report
/// success. What was seen stays.
pub proof fn barriers_lead_to_the_next_step(run: RunView)
    requires
        run.awaits(RunEvent::BarrierPassed),
    ensures
        ({
            let (next, action) = run.step(RunEvent::BarrierPassed);
            &&& next.instances == run.instances && next.strict == run.strict && next.seen
                == run.seen
            &&& run.stage is Listening ==> next.stage is Collecting && action is Collect
            &&& run.stage is Connected ==> next.stage is JoiningTopic && action
                == RunActionView::Subscribe("smoke"@)
            &&& run.stage is Subscribed ==> next.stage is Publishing && action == (
            RunActionView::Publish { topic: "smoke"@, message: "message"@ })
            &&& run.stage is Received ==> next.stage is Succeeded && action is RecordSuccess
            &&& run.stage is Listening || run.stage is Connected || run.stage is Subscribed
                || run.stage is Received
        }),
{
}

/// One of the other addresses is dialed: the one that comes last in the order that is drawn with the
/// number of instances as seed.
pub proof fn the_last_address_drawn_is_dialed(run: RunView, addresses: Vec<String>, own: String)
    requires
        run.awaits(RunEvent::Collected { addresses, own }),
    ensures
        ({
            let (next, action) = run.step(RunEvent::Collected { addresses, own });
            let others = other_addresses(addresses@, own@);
            let order = std_rng_shuffle(run.instances, others.len());
            &&& next.stage is Connecting && next.instances == run.instances && next.strict
                == run.strict && next.seen == run.seen
            &&& others.len() > 0 && action == RunActionView::Dial(others[order[others.len() - 1]]@)
        }),
{
}

/// Whether a run goes on to a barrier when a stage is done.
pub open spec fn ends_stage(
    run: RunView,
    stage: Stage,
    seen: SmokeView,
    next: RunView,
    action: RunActionView,
) -> bool {
    &&& next.instances == run.instances && next.strict == run.strict && next.seen == seen
    &&& stage is Connecting ==> next.stage is Connected && action == RunActionView::SignalAndWait(
        "Connected to a peer"@,
    )
    &&& stage is Subscribing ==> next.stage is Subscribed && action
        == RunActionView::SignalAndWait("Subscribed a topic"@)
    &&& stage is Receiving ==> next.stage is Received && action == RunActionView::SignalAndWait(
        "Published a message"@,
    )
}

/// Where all peers are subscribed already when the topic is joined, the barrier follows at once, and so
/// where all messages were received already when the own one is published.
pub proof fn nothing_is_waited_for_twice(run: RunView, all_peers: usize)
    ensures
        ({
            let (next, action) = run.step(RunEvent::JoinedTopic { all_peers });
            let stage = Stage::Subscribing { all_peers };
            if run.seen.subscribed < all_peers {
                next == (RunView { stage, ..run }) && action is Nothing
            } else {
                ends_stage(run, stage, run.seen, next, action)
            }
        }),
        ({
            let (next, action) = run.step(RunEvent::Published);
            if run.seen.sources.len() + 1 < run.instances {
                next == (RunView { stage: Stage::Receiving, ..run }) && action is Nothing
            } else {
                ends_stage(run, Stage::Receiving, run.seen, next, action)
            }
        }),
{
}

/// What happens on the transport ends a stage when its phase is done. A duplicate ends the run with a
/// failure, except at a barrier of a run that is not strict. Everything else is only counted.
pub proof fn events_end_stages(run: RunView, event: Event)
    requires
        run.awaits(RunEvent::Swarm(event)),
    ensures
        ({
            let (next, action) = run.step(RunEvent::Swarm(event));
            let phase = phase_of(run.stage, run.instances)->Some_0;
            let seen = run.seen.after(phase, event);
            match run.seen.progress(phase, event) {
                Progress::Done => ends_stage(run, run.stage, seen, next, action),
                Progress::Waiting => next == (RunView { seen, ..run }) && action is Nothing,
                Progress::Duplicate => if !run.strict && phase is Barrier {
                    next == (RunView { seen, ..run }) && action is Nothing
                } else {
                    next == (RunView { seen, stage: Stage::Failed, ..run }) && action
                        is RecordFailure
                },
            }
        }),
{
}

/// Each event is awaited in its own stage. Addresses have to hold one that is not the own one, and
/// subscriptions have to be countable.
pub proof fn events_are_awaited_in_their_stage(run: RunView, event: RunEvent)
    ensures
        run.awaits(event) <==> match event {
            RunEvent::BarrierPassed => run.stage is Listening || run.stage is Connected
                || run.stage is Subscribed || run.stage is Received,
            RunEvent::Collected { addresses, own } => run.stage is Collecting && other_addresses(
                addresses@,
                own@,
            ).len() > 0,
            RunEvent::JoinedTopic { .. } => run.stage is JoiningTopic,
            RunEvent::Published => run.stage is Publishing,
            RunEvent::Swarm(heard) => {
                &&& run.stage is Listening || run.stage is Connecting || run.stage is Connected
                    || run.stage is Subscribing || run.stage is Subscribed || run.stage is Receiving
                    || run.stage is Received
                &&& run.stage is Subscribing ==> !(heard is Message || heard is Gossipsub)
                &&& heard is Subscribed ==> run.seen.subscribed < usize::MAX
            },
        },
{
}

} // verus!
