//! A node of a generated topology.

use super::InstanceInfo;
use crate::instance_params::{number_at, InstanceParams, ParamMap};
use crate::participants::{all_take_part, dial_targets, outbound_of, peers_of};
use std::collections::BTreeMap;
use vstd::prelude::*;

verus! {

/// How many seconds a pruned peer has to wait.
pub const PRUNE_BACKOFF: u64 = 60;

/// How long gossipsub remembers messages, in heartbeats.
pub const HISTORY_LENGTH: usize = 12;

/// The parameters of a run. Times are in seconds.
#[derive(Clone, Copy, Debug)]
pub struct TestParams {
    pub warmup: u64,
    pub run: u64,
}

/// The parameters of a run, read one after the other.
pub open spec fn parsed_test_params(params: ParamMap) -> Result<TestParams, Seq<char>> {
    let warmup = number_at(params, "warmup"@, "warmup is not specified."@, ""@, u64::MAX as nat);
    let run = number_at(params, "run"@, "run is not specified."@, ""@, u64::MAX as nat);
    if warmup is Err {
        Err(warmup->Err_0)
    } else if run is Err {
        Err(run->Err_0)
    } else {
        Ok(TestParams { warmup: warmup->Ok_0 as u64, run: run->Ok_0 as u64 })
    }
}

impl TestParams {
    /// Reads the parameters of a run.
    pub fn new(instance_params: &InstanceParams) -> (parsed: Result<Self, String>)
        ensures
            match parsed {
                Ok(test_params) => parsed_test_params(instance_params@) == Ok::<
                    TestParams,
                    Seq<char>,
                >(test_params),
                Err(e) => parsed_test_params(instance_params@) == Err::<TestParams, Seq<char>>(
                    e@,
                ),
            },
    {
        let warmup: u64 = instance_params.number(
            "warmup",
            "warmup is not specified.",
            "",
            u64::MAX,
        )?;
        let run: u64 = instance_params.number("run", "run is not specified.", "", u64::MAX)?;
        Ok(TestParams { warmup, run })
    }
}

/// What happens during a run.
#[derive(Clone, Copy, Debug)]
pub enum SimEvent {
    /// The run time is over.
    Deadline,
    /// The scores are due.
    ScoresDue,
    /// Something happened on the transport.
    Swarm,
}

/// Whether a run goes on after an event.
pub fn goes_on(event: SimEvent) -> (on: bool)
    ensures
        on == !(event is Deadline),
{
    match event {
        SimEvent::Deadline => false,
        SimEvent::ScoresDue | SimEvent::Swarm => true,
    }
}

/// A node of the simulation.
#[derive(Debug)]
pub struct Network {
    pub node_id: usize,
    pub instance_info: InstanceInfo,
    pub test_params: TestParams,
    pub participants: BTreeMap<usize, InstanceInfo>,
    /// The validators that the node runs, ascending.
    pub validator_set: Vec<u64>,
}

impl Network {
    /// The infos of the nodes to dial, in dialing order.
    pub fn dial_peers(&self, outbound_peers: &BTreeMap<usize, Vec<usize>>) -> (targets: Vec<
        &InstanceInfo,
    >)
        requires
            all_take_part(self.participants@, peers_of(outbound_peers@, self.node_id)),
        ensures
            targets@.len() == peers_of(outbound_peers@, self.node_id).len(),
            forall|i: int|
                0 <= i < targets@.len() ==> *(#[trigger] targets@[i])
                    == self.participants@[peers_of(outbound_peers@, self.node_id)[i]],
    {
        dial_targets(&self.participants, &outbound_of(outbound_peers, self.node_id))
    }
}

/// The warmup and the run time are read under their own names, in this order.
pub proof fn times_are_read_by_name(params: ParamMap)
    ensures
        ({
            let warmup = number_at(
                params,
                "warmup"@,
                "warmup is not specified."@,
                ""@,
                u64::MAX as nat,
            );
            let run = number_at(params, "run"@, "run is not specified."@, ""@, u64::MAX as nat);
            match parsed_test_params(params) {
                Ok(read) => warmup is Ok && run is Ok && read.warmup == warmup->Ok_0 as u64
                    && read.run == run->Ok_0 as u64,
                Err(report) => warmup == Err::<nat, Seq<char>>(report) || (warmup is Ok && run
                    == Err::<nat, Seq<char>>(report)),
            }
        }),
        PRUNE_BACKOFF == 60,
        HISTORY_LENGTH == 12,
{
}

} // verus!
