//! An instance that follows the protocol.

use super::InstanceInfo;
use crate::censoring::utils::{make_named_origin, named_origin};
use crate::eth_consensus::node_run::Metrics;
use crate::influx::{
    query, query_views, Double, EntryView, QueryView, Timestamp, Type, TypeView, WriteQuery,
};
use crate::instance_params::{number_at, InstanceParams, ParamMap};
use crate::openmetrics::MetricFamily;
use crate::recording::{all_recordable, family_points, family_queries};
use crate::rng::{rearranged, shuffle_with_std_rng, std_rng_shuffle};
use crate::text::{decimal, decimal_text};
use vstd::hash_map::StringHashMap;
use vstd::prelude::*;

verus! {

/// How many seconds a pruned peer has to wait.
pub const PRUNE_BACKOFF: u64 = 60;

/// How long gossipsub remembers messages, in heartbeats.
pub const HISTORY_LENGTH: usize = 12;

/// How many seconds pass between two records of the scores of the peers.
pub const SCORE_INTERVAL: u64 = 1;

/// The topic that is published to.
pub const TOPIC: &'static str = "emulate";

/// The parameters of a run. Times are in seconds.
#[derive(Clone, Copy, Debug)]
pub struct TestParams {
    pub peers_to_connect: usize,
    /// Messages per second.
    pub message_rate: u64,
    pub warmup: u64,
    pub run: u64,
}

/// The parameters of a run, read one after the other.
pub open spec fn parsed_test_params(params: ParamMap) -> Result<TestParams, Seq<char>> {
    let none = ""@;
    let peers = number_at(
        params,
        "peers_to_connect"@,
        "peers_to_connect is not specified."@,
        none,
        usize::MAX as nat,
    );
    let rate = number_at(
        params,
        "message_rate"@,
        "message_rate is not specified."@,
        none,
        u64::MAX as nat,
    );
    let warmup = number_at(params, "warmup"@, "warmup is not specified."@, none, u64::MAX as nat);
    let run = number_at(params, "run"@, "run is not specified."@, none, u64::MAX as nat);
    if peers is Err {
        Err(peers->Err_0)
    } else if rate is Err {
        Err(rate->Err_0)
    } else if warmup is Err {
        Err(warmup->Err_0)
    } else if run is Err {
        Err(run->Err_0)
    } else {
        Ok(
            TestParams {
                peers_to_connect: peers->Ok_0 as usize,
                message_rate: rate->Ok_0 as u64,
                warmup: warmup->Ok_0 as u64,
                run: run->Ok_0 as u64,
            },
        )
    }
}

impl TestParams {
    /// Reads the parameters of a run.
    pub fn new(instance_params: &InstanceParams) -> (parsed: Result<Self, String>)
        ensures
            match parsed {
                Ok(test_params) => parsed_test_params(instance_params@) == Ok::<
                    TestParams,
                    Seq<char>,
                >(test_params),
                Err(e) => parsed_test_params(instance_params@) == Err::<TestParams, Seq<char>>(
                    e@,
                ),
            },
    {
        let peers_to_connect: usize = instance_params.size(
            "peers_to_connect",
            "peers_to_connect is not specified.",
            "",
        )?;
        let message_rate: u64 = instance_params.number(
            "message_rate",
            "message_rate is not specified.",
            "",
            u64::MAX,
        )?;
        let warmup: u64 = instance_params.number(
            "warmup",
            "warmup is not specified.",
            "",
            u64::MAX,
        )?;
        let run: u64 = instance_params.number("run", "run is not specified.", "", u64::MAX)?;
        Ok(TestParams { peers_to_connect, message_rate, warmup, run })
    }

    /// How many milliseconds pass between two messages.
    pub open spec fn interval(self) -> nat
        recommends
            self.message_rate > 0,
    {
        1000nat / (self.message_rate as nat)
    }

    /// How many milliseconds pass between two messages.
    pub fn publish_interval(&self) -> (millis: u64)
        requires
            self.message_rate > 0,
        ensures
            millis == self.interval(),
    {
        1000 / self.message_rate
    }

    /// How many messages are published during a run.
    pub fn total_expected_messages(&self) -> (total: u128)
        requires
            0 < self.message_rate <= 1000,
        ensures
            total == (self.run * 1000) as nat / self.interval(),
    {
        let interval: u64 = self.publish_interval();
        assert(interval >= 1) by (nonlinear_arith)
            requires
                interval == 1000nat / (self.message_rate as nat),
                0 < self.message_rate <= 1000,
        ;
        (self.run as u128 * 1000) / interval as u128
    }
}

/// The honest instances.
pub open spec fn honest_of(participants: Seq<InstanceInfo>) -> Seq<InstanceInfo> {
    participants.filter(|info: InstanceInfo| info.role.honest())
}

/// How many instances are honest.
pub fn count_honest(participants: &Vec<InstanceInfo>) -> (count: usize)
    ensures
        count == honest_of(participants@).len(),
{
    let mut count: usize = 0;
    let mut i: usize = 0;
    proof {
        reveal(Seq::filter);
        assert(participants@.take(0) =~= Seq::empty());
    }
    while i < participants.len()
        invariant
            i <= participants@.len(),
            count == honest_of(participants@.take(i as int)).len(),
            count <= i,
        decreases participants@.len() - i,
    {
        proof {
            reveal(Seq::filter);
            let next = participants@.take(i + 1);
            assert(next.drop_last() =~= participants@.take(i as int));
            assert(next.last() == participants@[i as int]);
        }
        if participants[i].role.is_honest() {
            count = count + 1;
        }
        i = i + 1;
    }
    assert(participants@.take(i as int) =~= participants@);
    count
}

/// The peers to connect to: the first `count` honest instances in random order. The order depends
/// on the seed alone. No instance is selected more often than it takes part.
pub fn select_peers(participants: Vec<InstanceInfo>, seed: u64, count: usize) -> (selected: Vec<
    InstanceInfo,
>)
    requires
        count <= honest_of(participants@).len(),
    ensures
        selected@ == rearranged(
            honest_of(participants@),
            std_rng_shuffle(seed, honest_of(participants@).len()),
        ).take(count as int),
        selected@.len() == count,
        selected@.to_multiset().subset_of(honest_of(participants@).to_multiset()),
        forall|i: int|
            0 <= i < selected@.len() ==> participants@.contains(#[trigger] selected@[i])
                && selected@[i].role.honest(),
{
    let ghost all = participants@;
    let mut honest: Vec<InstanceInfo> = Vec::new();
    proof {
        reveal(Seq::filter);
        assert(all.take(0) =~= Seq::empty());
    }
    for info in it: participants
        invariant
            it.seq() == all,
            honest@ == honest_of(all.take(it.index())),
    {
        proof {
            reveal(Seq::filter);
            let next = all.take(it.index() + 1);
            assert(next.drop_last() =~= all.take(it.index()));
            assert(next.last() == info);
        }
        if info.role.is_honest() {
            honest.push(info);
        }
    }
    assert(all.take(all.len() as int) =~= all);
    let ghost before = honest@;
    shuffle_with_std_rng(seed, &mut honest);
    let ghost shuffled = honest@;
    honest.truncate(count);
    proof {
        crate::ordered::lemma_same_items(shuffled, before);
        assert(honest@ =~= shuffled.take(count as int));
        assert(shuffled =~= honest@ + shuffled.skip(count as int));
        vstd::seq_lib::lemma_multiset_commutative(honest@, shuffled.skip(count as int));
        assert forall|i: int| 0 <= i < honest@.len() implies all.contains(#[trigger] honest@[i])
            && honest@[i].role.honest() by {
            assert(shuffled.contains(shuffled[i]));
            assert(before.contains(shuffled[i]));
            let k = choose|k: int| 0 <= k < before.len() && before[k] == shuffled[i];
            lemma_honest_of(all, k);
        }
    }
    honest
}

proof fn lemma_honest_of(all: Seq<InstanceInfo>, k: int)
    requires
        0 <= k < honest_of(all).len(),
    ensures
        all.contains(honest_of(all)[k]),
        honest_of(all)[k].role.honest(),
    decreases all.len(),
{
    reveal(Seq::filter);
    if all.len() > 0 {
        let before = honest_of(all.drop_last());
        if k < before.len() {
            lemma_honest_of(all.drop_last(), k);
            assert(honest_of(all)[k] == before[k]);
            let m = choose|m: int|
                0 <= m < all.drop_last().len() && all.drop_last()[m] == before[k];
            assert(all[m] == before[k]);
        } else {
            assert(all[all.len() - 1] == honest_of(all)[k]);
        }
    }
}

/// The messages that a publisher sends, one after the other.
#[derive(Debug)]
pub struct Publisher {
    /// How many messages were sent.
    pub message_counter: u64,
}

impl Publisher {
    /// A publisher that sent nothing yet.
    pub fn new() -> (publisher: Self)
        ensures
            publisher.message_counter == 0,
    {
        Publisher { message_counter: 0 }
    }

    /// The next message: its number, counted from zero.
    pub fn next_message(&mut self) -> (message: String)
        requires
            old(self).message_counter < u64::MAX,
        ensures
            message@ == "message "@ + decimal(old(self).message_counter as nat),
            final(self).message_counter == old(self).message_counter + 1,
    {
        let message: String = "message ".to_owned().concat(
            decimal_text(self.message_counter as u128).as_str(),
        );
        self.message_counter = self.message_counter + 1;
        message
    }
}

/// Queries for all metrics of an instance.
pub fn record_metrics(
    now: Timestamp,
    instance_info: &InstanceInfo,
    run_id: &str,
    families: &Vec<MetricFamily>,
) -> (queries: Vec<WriteQuery>)
    requires
        all_recordable::<Metrics>(families@),
    ensures
        query_views(queries@) == family_points::<Metrics>(
            named_origin(now, instance_info.peer_id@, instance_info.title(), run_id@),
            families@,
        ),
{
    let name: String = instance_info.name();
    family_queries::<Metrics>(
        &make_named_origin(now, instance_info.peer_id.as_str(), name.as_str(), run_id),
        families,
    )
}

/// The score of a peer.
#[derive(Debug)]
pub struct PeerScore {
    pub peer_id: String,
    pub score: Double,
}

/// The names of instances by peer id. Where a peer id occurs twice, the later name counts.
pub open spec fn names_of(participants: Seq<InstanceInfo>) -> Map<Seq<char>, Seq<char>>
    decreases participants.len(),
{
    if participants.len() == 0 {
        Map::empty()
    } else {
        names_of(participants.drop_last()).insert(
            participants.last().peer_id@,
            participants.last().title(),
        )
    }
}

/// Whether no two instances have the same peer id.
pub open spec fn distinct_peers(participants: Seq<InstanceInfo>) -> bool {
    forall|i: int, j: int|
        0 <= i < j < participants.len() ==> (#[trigger] participants[i]).peer_id@ != (
        #[trigger] participants[j]).peer_id@
}

/// The peer ids that have a name are exactly those of the instances. Where no two instances have
/// the same peer id, each has its own name.
pub proof fn names_are_of_participants(participants: Seq<InstanceInfo>)
    ensures
        forall|peer_id: Seq<char>| #[trigger]
            names_of(participants).contains_key(peer_id) <==> exists|i: int|
                0 <= i < participants.len() && (#[trigger] participants[i]).peer_id@ == peer_id,
        distinct_peers(participants) ==> forall|i: int|
            0 <= i < participants.len() ==> names_of(participants)[(
            #[trigger] participants[i]).peer_id@] == participants[i].title(),
    decreases participants.len(),
{
    if participants.len() > 0 {
        let before = participants.drop_last();
        let last = participants.len() - 1;
        names_are_of_participants(before);
        assert forall|peer_id: Seq<char>| #[trigger]
            names_of(participants).contains_key(peer_id) <==> exists|i: int|
                0 <= i < participants.len() && (
                #[trigger] participants[i]).peer_id@ == peer_id by {
            if names_of(before).contains_key(peer_id) {
                let i = choose|i: int|
                    0 <= i < before.len() && (#[trigger] before[i]).peer_id@ == peer_id;
                assert(participants[i].peer_id@ == peer_id);
            } else if names_of(participants).contains_key(peer_id) {
                assert(participants[last].peer_id@ == peer_id);
            }
            assert forall|i: int|
                0 <= i < participants.len() && (
                #[trigger] participants[i]).peer_id@ == peer_id implies names_of(
                participants,
            ).contains_key(peer_id) by {
                if i < last {
                    assert(before[i].peer_id@ == peer_id);
                }
            }
        }
        if distinct_peers(participants) {
            assert(distinct_peers(before)) by {
                assert forall|i: int, j: int| 0 <= i < j < before.len() implies (
                #[trigger] before[i]).peer_id@ != (#[trigger] before[j]).peer_id@ by {
                    assert(participants[i].peer_id@ != participants[j].peer_id@);
                }
            }
            assert forall|i: int| 0 <= i < participants.len() implies names_of(participants)[(
            #[trigger] participants[i]).peer_id@] == participants[i].title() by {
                if i < last {
                    assert(before[i] == participants[i]);
                    assert(participants[i].peer_id@ != participants[last].peer_id@);
                }
            }
        }
    }
}

/// Whether each score is of a participant.
pub open spec fn scores_named(names: Map<Seq<char>, Seq<char>>, scores: Seq<PeerScore>) -> bool {
    forall|i: int| 0 <= i < scores.len() ==> names.contains_key((#[trigger] scores[i]).peer_id@)
}

/// The fields of scores: under the name of the instance, its score.
pub open spec fn score_fields(names: Map<Seq<char>, Seq<char>>, scores: Seq<PeerScore>) -> Seq<
    EntryView,
> {
    scores.map_values(
        |score: PeerScore|
            EntryView { name: names[score.peer_id@], value: TypeView::Float(score.score) },
    )
}

/// What an honest instance knows of the others.
pub struct HonestBehaviour {
    pub instance_info: InstanceInfo,
    /// The names of the other instances by peer id.
    pub participants: StringHashMap<String>,
    /// How many seconds pass between two records of the scores of the peers.
    pub score_interval: u64,
}

impl HonestBehaviour {
    /// The names of the other instances by peer id.
    pub open spec fn names(self) -> Map<Seq<char>, Seq<char>> {
        self.participants@.map_values(|name: String| name@)
    }

    /// Takes the instance and the others. The scores are recorded every second, under the names of
    /// the others.
    pub fn new(instance_info: InstanceInfo, participants: Vec<InstanceInfo>) -> (behaviour: Self)
        ensures
            behaviour.instance_info == instance_info,
            behaviour.score_interval == SCORE_INTERVAL,
            behaviour.names() == names_of(participants@),
            forall|peer_id: Seq<char>| #[trigger]
                behaviour.names().contains_key(peer_id) <==> exists|i: int|
                    0 <= i < participants@.len() && (
                    #[trigger] participants@[i]).peer_id@ == peer_id,
            distinct_peers(participants@) ==> forall|i: int|
                0 <= i < participants@.len() ==> behaviour.names()[(
                #[trigger] participants@[i]).peer_id@] == participants@[i].title(),
    {
        let ghost all = participants@;
        let mut names: StringHashMap<String> = StringHashMap::new();
        proof {
            assert(all.take(0) =~= Seq::empty());
            assert(names@.map_values(|name: String| name@) =~= Map::empty());
        }
        for info in it: participants
            invariant
                it.seq() == all,
                names@.map_values(|name: String| name@) == names_of(all.take(it.index())),
        {
            proof {
                let next = all.take(it.index() + 1);
                assert(next.drop_last() =~= all.take(it.index()));
                assert(next.last() == info);
            }
            let ghost before = names@.map_values(|name: String| name@);
            let name: String = info.name();
            names.insert(info.peer_id, name);
            assert(names@.map_values(|name: String| name@) =~= before.insert(
                info.peer_id@,
                info.title(),
            ));
        }
        proof {
            assert(all.take(all.len() as int) =~= all);
            names_are_of_participants(all);
        }
        HonestBehaviour { instance_info, participants: names, score_interval: SCORE_INTERVAL }
    }

    /// Whether each score is of a participant.
    pub fn knows_all(&self, scores: &Vec<PeerScore>) -> (all: bool)
        ensures
            all == scores_named(self.names(), scores@),
    {
        let mut i: usize = 0;
        while i < scores.len()
            invariant
                i <= scores@.len(),
                forall|k: int|
                    0 <= k < i ==> self.names().contains_key((#[trigger] scores@[k]).peer_id@),
            decreases scores@.len() - i,
        {
            if !self.participants.contains_key(scores[i].peer_id.as_str()) {
                assert(!self.names().contains_key(scores@[i as int].peer_id@));
                return false;
            }
            i = i + 1;
        }
        true
    }

    /// The query for the scores of the peers. There is none where no peer has a score.
    pub fn record_scores(&self, now: Timestamp, run_id: &str, scores: &Vec<PeerScore>) -> (record:
        Option<WriteQuery>)
        requires
            scores_named(self.names(), scores@),
        ensures
            match record {
                Some(record) => scores@.len() > 0 && record@ == (QueryView {
                    fields: score_fields(self.names(), scores@),
                    ..query(now, "scores"@).text_tag(
                        "instance_peer_id"@,
                        self.instance_info.peer_id@,
                    ).text_tag("instance_name"@, self.instance_info.title()).text_tag(
                        "run_id"@,
                        run_id@,
                    )
                }),
                None => scores@.len() == 0,
            },
    {
        if scores.len() == 0 {
            return None;
        }
        let instance_name: String = self.instance_info.name();
        let mut record: WriteQuery = WriteQuery::new(now, "scores").add_text_tag(
            "instance_peer_id",
            self.instance_info.peer_id.as_str(),
        ).add_text_tag("instance_name", instance_name.as_str()).add_text_tag(
            "run_id",
            run_id,
        );
        let ghost start = record@;
        let ghost fields = score_fields(self.names(), scores@);
        let mut i: usize = 0;
        assert(record@ =~= (QueryView { fields: fields.take(0), ..start }));
        while i < scores.len()
            invariant
                scores_named(self.names(), scores@),
                fields == score_fields(self.names(), scores@),
                i <= scores@.len(),
                record@ == (QueryView { fields: fields.take(i as int), ..start }),
            decreases scores@.len() - i,
        {
            assert(self.names().contains_key(scores@[i as int].peer_id@));
            let name: &String = self.participants.get(scores[i].peer_id.as_str()).unwrap();
            record = record.add_field(name.as_str(), Type::Float(scores[i].score));
            assert(fields.take(i + 1) =~= fields.take(i as int).push(fields[i as int]));
            assert(record@ =~= (QueryView { fields: fields.take(i + 1), ..start }));
            i = i + 1;
        }
        assert(fields.take(i as int) =~= fields);
        Some(record)
    }
}

} // verus!
