//! A simulation of flood publishing.

use crate::instance_params::{get_param, param, InstanceParams, ParamMap};
use crate::text::same_text;
use vstd::prelude::*;

verus! {

/// The state that is signalled when the network is configured.
pub const BARRIER_NETWORK_READY: &'static str = "Network configured";

/// The state that is signalled when the transport runs.
pub const BARRIER_LIBP2P_READY: &'static str = "Started libp2p";

/// The state that is signalled when all nodes are connected.
pub const BARRIER_TOPOLOGY_READY: &'static str = "Topology generated";

/// The state that is signalled when all nodes are subscribed.
pub const BARRIER_SUBSCRIBED: &'static str = "Subscribed";

/// The latency of the links, in nanoseconds.
pub const LATENCY: u64 = 1_000_000;

/// When messages are flooded.
#[derive(Clone, Copy, Debug, PartialEq, Eq, Structural)]
pub enum FloodPublish {
    /// At once.
    Rapid,
    /// At a heartbeat, from the given one on.
    Heartbeat(usize),
}

/// The parameters of a run. Times are in seconds.
#[derive(Clone, Copy, Debug)]
pub struct FloodSettings {
    pub warm_up: u64,
    pub run: u64,
    pub publish_interval: u64,
    /// The bandwidth in MiB.
    pub bandwidth: u64,
}

/// The parameters of a run, read one after the other.
pub open spec fn parsed_settings(params: ParamMap) -> Result<FloodSettings, Seq<char>> {
    let warm_up = param::<u64>(params, "warm_up"@);
    let run = param::<u64>(params, "run"@);
    let publish_interval = param::<u64>(params, "publish_interval"@);
    let bandwidth = param::<u64>(params, "bandwidth"@);
    if warm_up is Err {
        Err(warm_up->Err_0)
    } else if run is Err {
        Err(run->Err_0)
    } else if publish_interval is Err {
        Err(publish_interval->Err_0)
    } else if bandwidth is Err {
        Err(bandwidth->Err_0)
    } else {
        Ok(
            FloodSettings {
                warm_up: warm_up->Ok_0,
                run: run->Ok_0,
                publish_interval: publish_interval->Ok_0,
                bandwidth: bandwidth->Ok_0,
            },
        )
    }
}

/// When messages are flooded, read from the parameters.
pub open spec fn parsed_flood_publish(params: ParamMap) -> Result<FloodPublish, Seq<char>> {
    match param::<String>(params, "flood_publish"@) {
        Err(e) => Err(e),
        Ok(kind) => if kind == "rapid"@ {
            Ok(FloodPublish::Rapid)
        } else if kind == "heartbeat"@ {
            Ok(FloodPublish::Heartbeat(0))
        } else {
            Err("Unknown flood publish type"@)
        },
    }
}

impl FloodSettings {
    /// Reads the parameters of a run.
    pub fn new(instance_params: &InstanceParams) -> (parsed: Result<Self, String>)
        ensures
            match parsed {
                Ok(settings) => parsed_settings(instance_params@) == Ok::<
                    FloodSettings,
                    Seq<char>,
                >(settings),
                Err(e) => parsed_settings(instance_params@) == Err::<FloodSettings, Seq<char>>(
                    e@,
                ),
            },
    {
        let warm_up: u64 = get_param::<u64>("warm_up", instance_params)?;
        let run: u64 = get_param::<u64>("run", instance_params)?;
        let publish_interval: u64 = get_param::<u64>("publish_interval", instance_params)?;
        let bandwidth: u64 = get_param::<u64>("bandwidth", instance_params)?;
        Ok(FloodSettings { warm_up, run, publish_interval, bandwidth })
    }

    /// The bandwidth of the links in bytes.
    pub fn link_bandwidth(&self) -> (bytes: u64)
        requires
            self.bandwidth * 1_048_576 <= u64::MAX,
        ensures
            bytes == self.bandwidth * 1_048_576,
    {
        self.bandwidth * 1024 * 1024
    }
}

/// Reads when messages are flooded.
pub fn parse_flood_publish(instance_params: &InstanceParams) -> (parsed: Result<
    FloodPublish,
    String,
>)
    ensures
        match parsed {
            Ok(kind) => parsed_flood_publish(instance_params@) == Ok::<FloodPublish, Seq<char>>(
                kind,
            ),
            Err(e) => parsed_flood_publish(instance_params@) == Err::<FloodPublish, Seq<char>>(
                e@,
            ),
        },
{
    let kind: String = get_param::<String>("flood_publish", instance_params)?;
    if same_text(kind.as_str(), "rapid") {
        Ok(FloodPublish::Rapid)
    } else if same_text(kind.as_str(), "heartbeat") {
        Ok(FloodPublish::Heartbeat(0))
    } else {
        Err("Unknown flood publish type".to_owned())
    }
}

/// How to reach a node.
#[derive(Debug)]
pub struct PeerAddress {
    pub peer_id: String,
    pub multiaddr: String,
}

/// The other nodes.
pub open spec fn others_of(infos: Seq<PeerAddress>, peer_id: Seq<char>) -> Seq<PeerAddress> {
    infos.filter(|info: PeerAddress| info.peer_id@ != peer_id)
}

/// The other nodes, in the order in which they were told.
pub fn participants(infos: Vec<PeerAddress>, peer_id: &str) -> (others: Vec<PeerAddress>)
    ensures
        others@ == others_of(infos@, peer_id@),
{
    let ghost all = infos@;
    let mut others: Vec<PeerAddress> = Vec::new();
    proof {
        reveal(Seq::filter);
        assert(all.take(0) =~= Seq::empty());
    }
    for info in it: infos
        invariant
            it.seq() == all,
            others@ == others_of(all.take(it.index()), peer_id@),
    {
        proof {
            reveal(Seq::filter);
            let next = all.take(it.index() + 1);
            assert(next.drop_last() =~= all.take(it.index()));
            assert(next.last() == info);
        }
        if !same_text(info.peer_id.as_str(), peer_id) {
            others.push(info);
        }
    }
    assert(all.take(all.len() as int) =~= all);
    others
}

/// Whether a node publishes: the first of its group does.
pub fn is_publisher(group_seq: u64) -> (publisher: bool)
    ensures
        publisher == (group_seq == 1),
{
    group_seq == 1
}

/// The line that tells the peer id of a node and whether it publishes.
pub fn peer_id_line(peer_id: &str, is_publisher: bool) -> (line: String)
    ensures
        line@ == "[flood_publishing_test]{\"event\":\"peer_id\",\"peer_id\":\""@ + peer_id@
            + "\",\"is_publisher\":"@ + (if is_publisher {
            "true"@
        } else {
            "false"@
        }) + "}"@,
{
    let flag: &str = if is_publisher {
        "true"
    } else {
        "false"
    };
    "[flood_publishing_test]{\"event\":\"peer_id\",\"peer_id\":\"".to_owned().concat(
        peer_id,
    ).concat("\",\"is_publisher\":").concat(flag).concat("}")
}

/// Each number of a run is read under its own name.
pub proof fn settings_are_read_by_name(params: ParamMap)
    ensures
        ({
            let warm_up = param::<u64>(params, "warm_up"@);
            let run = param::<u64>(params, "run"@);
            let publish_interval = param::<u64>(params, "publish_interval"@);
            let bandwidth = param::<u64>(params, "bandwidth"@);
            match parsed_settings(params) {
                Ok(read) => {
                    &&& warm_up == Ok::<u64, Seq<char>>(read.warm_up)
                    &&& run == Ok::<u64, Seq<char>>(read.run)
                    &&& publish_interval == Ok::<u64, Seq<char>>(read.publish_interval)
                    &&& bandwidth == Ok::<u64, Seq<char>>(read.bandwidth)
                },
                Err(report) => {
                    ||| warm_up == Err::<u64, Seq<char>>(report)
                    ||| warm_up is Ok && run == Err::<u64, Seq<char>>(report)
                    ||| warm_up is Ok && run is Ok && publish_interval == Err::<u64, Seq<char>>(
                        report,
                    )
                    ||| warm_up is Ok && run is Ok && publish_interval is Ok && bandwidth == Err::<
                        u64,
                        Seq<char>,
                    >(report)
                },
            }
        }),
        LATENCY == 1_000_000,
{
}

/// Messages are flooded at once for `rapid`, and from the first heartbeat on for `heartbeat`. No other
/// text is accepted.
pub proof fn flooding_is_read_by_name(params: ParamMap)
    ensures
        ({
            let kind = param::<String>(params, "flood_publish"@);
            let read = parsed_flood_publish(params);
            &&& read == Ok::<FloodPublish, Seq<char>>(FloodPublish::Rapid) <==> kind == Ok::<
                Seq<char>,
                Seq<char>,
            >("rapid"@)
            &&& read == Ok::<FloodPublish, Seq<char>>(FloodPublish::Heartbeat(0)) <==> kind == Ok::<
                Seq<char>,
                Seq<char>,
            >("heartbeat"@)
            &&& kind is Err ==> read is Err && read->Err_0 == kind->Err_0
            &&& kind is Ok && kind->Ok_0 != "rapid"@ && kind->Ok_0 != "heartbeat"@ ==> read
                == Err::<FloodPublish, Seq<char>>("Unknown flood publish type"@)
        }),
{
    reveal_strlit("rapid");
    reveal_strlit("heartbeat");
    assert("rapid"@.len() != "heartbeat"@.len());
}

/// The other nodes are all but those of the own peer id, in their order.
pub proof fn others_have_another_peer_id(
    infos: Seq<PeerAddress>,
    info: PeerAddress,
    peer_id: Seq<char>,
)
    ensures
        others_of(Seq::empty(), peer_id).len() == 0,
        others_of(infos.push(info), peer_id) == if info.peer_id@ == peer_id {
            others_of(infos, peer_id)
        } else {
            others_of(infos, peer_id).push(info)
        },
{
    reveal(Seq::filter);
    assert(infos.push(info).drop_last() =~= infos);
}

} // verus!
