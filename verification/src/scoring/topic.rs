//! Topics, named in JSON.

use crate::text::{decimal, decimal_text, read_number_of_decimal};
use vstd::prelude::*;

verus! {

/// What is gossiped about.
#[derive(Clone, Copy, Debug, PartialEq, Eq, Structural)]
pub enum Topic {
    Blocks,
    Attestations(u64),
    Aggregates(u64),
    SyncMessages(u64),
    SignedContributionAndProof(u64),
}

/// The name of a topic with a subnet: an object from its kind to its subnet.
pub open spec fn subnet_name(kind: Seq<char>, subnet: u64) -> Seq<char> {
    kind + decimal(subnet as nat) + "}"@
}

impl Topic {
    /// The name of the topic: its JSON form.
    pub open spec fn name(self) -> Seq<char> {
        match self {
            Topic::Blocks => "\"Blocks\""@,
            Topic::Attestations(x) => subnet_name("{\"Attestations\":"@, x),
            Topic::Aggregates(x) => subnet_name("{\"Aggregates\":"@, x),
            Topic::SyncMessages(x) => subnet_name("{\"SyncMessages\":"@, x),
            Topic::SignedContributionAndProof(x) => subnet_name(
                "{\"SignedContributionAndProof\":"@,
                x,
            ),
        }
    }

    /// Writes the name of the topic.
    pub fn to_text(&self) -> (text: String)
        ensures
            text@ == self.name(),
    {
        match self {
            Topic::Blocks => "\"Blocks\"".to_owned(),
            Topic::Attestations(x) => subnet_text("{\"Attestations\":", *x),
            Topic::Aggregates(x) => subnet_text("{\"Aggregates\":", *x),
            Topic::SyncMessages(x) => subnet_text("{\"SyncMessages\":", *x),
            Topic::SignedContributionAndProof(x) => subnet_text(
                "{\"SignedContributionAndProof\":",
                *x,
            ),
        }
    }
}

fn subnet_text(kind: &str, subnet: u64) -> (text: String)
    ensures
        text@ == subnet_name(kind@, subnet),
{
    kind.to_owned().concat(decimal_text(subnet as u128).as_str()).concat("}")
}

proof fn lemma_same_subnet(kind: Seq<char>, a: u64, b: u64)
    requires
        subnet_name(kind, a) == subnet_name(kind, b),
    ensures
        a == b,
{
    let x = decimal(a as nat);
    let y = decimal(b as nat);
    reveal_strlit("}");
    assert((kind + x + "}"@).len() == (kind + y + "}"@).len());
    assert(subnet_name(kind, a).subrange(kind.len() as int, (kind.len() + x.len()) as int) =~= x);
    assert(subnet_name(kind, b).subrange(kind.len() as int, (kind.len() + y.len()) as int) =~= y);
    read_number_of_decimal(a as nat, u64::MAX as nat);
    read_number_of_decimal(b as nat, u64::MAX as nat);
}

/// The characters by which the kinds of topics can be told apart.
spec fn marks(topic: Topic) -> (char, char, char) {
    match topic {
        Topic::Blocks => ('"', 'l', 'o'),
        Topic::Attestations(_) => ('{', 'A', 't'),
        Topic::Aggregates(_) => ('{', 'A', 'g'),
        Topic::SyncMessages(_) => ('{', 'S', 'y'),
        Topic::SignedContributionAndProof(_) => ('{', 'S', 'i'),
    }
}

proof fn lemma_marks(topic: Topic)
    ensures
        (topic.name()[0], topic.name()[2], topic.name()[3]) == marks(topic),
{
    reveal_strlit("\"Blocks\"");
    reveal_strlit("{\"Attestations\":");
    reveal_strlit("{\"Aggregates\":");
    reveal_strlit("{\"SyncMessages\":");
    reveal_strlit("{\"SignedContributionAndProof\":");
    match topic {
        Topic::Blocks => {},
        Topic::Attestations(x) => {
            let kind = "{\"Attestations\":"@;
            assert(kind[0] == '{' && kind[2] == 'A' && kind[3] == 't');
        },
        Topic::Aggregates(x) => {
            let kind = "{\"Aggregates\":"@;
            assert(kind[0] == '{' && kind[2] == 'A' && kind[3] == 'g');
        },
        Topic::SyncMessages(x) => {
            let kind = "{\"SyncMessages\":"@;
            assert(kind[0] == '{' && kind[2] == 'S' && kind[3] == 'y');
        },
        Topic::SignedContributionAndProof(x) => {
            let kind = "{\"SignedContributionAndProof\":"@;
            assert(kind[0] == '{' && kind[2] == 'S' && kind[3] == 'i');
        },
    }
}

/// Different topics have different names.
pub proof fn topic_names_differ(a: Topic, b: Topic)
    requires
        a.name() == b.name(),
    ensures
        a == b,
{
    lemma_marks(a);
    lemma_marks(b);
    match (a, b) {
        (Topic::Attestations(x), Topic::Attestations(y)) => {
            lemma_same_subnet("{\"Attestations\":"@, x, y);
        },
        (Topic::Aggregates(x), Topic::Aggregates(y)) => {
            lemma_same_subnet("{\"Aggregates\":"@, x, y);
        },
        (Topic::SyncMessages(x), Topic::SyncMessages(y)) => {
            lemma_same_subnet("{\"SyncMessages\":"@, x, y);
        },
        (Topic::SignedContributionAndProof(x), Topic::SignedContributionAndProof(y)) => {
            lemma_same_subnet("{\"SignedContributionAndProof\":"@, x, y);
        },
        _ => {},
    }
}

/// The topics of the first `subnets` attestation subnets: attestations, then aggregates, of each.
pub open spec fn attestation_topics(subnets: nat) -> Seq<Topic> {
    Seq::new(
        2 * subnets,
        |i: int|
            if i % 2 == 0 {
                Topic::Attestations((i / 2) as u64)
            } else {
                Topic::Aggregates((i / 2) as u64)
            },
    )
}

/// The topics of the first `subnets` sync committee subnets: messages, then aggregates, of each.
pub open spec fn sync_topics(subnets: nat) -> Seq<Topic> {
    Seq::new(
        2 * subnets,
        |i: int|
            if i % 2 == 0 {
                Topic::SyncMessages((i / 2) as u64)
            } else {
                Topic::SignedContributionAndProof((i / 2) as u64)
            },
    )
}

/// All topics for so many subnets.
pub open spec fn all_topics(attestation_subnets: u64, sync_subnets: u64) -> Seq<Topic> {
    seq![Topic::Blocks] + attestation_topics(attestation_subnets as nat) + sync_topics(
        sync_subnets as nat,
    )
}

/// All topics for so many subnets.
pub fn topics(attestation_subnets: u64, sync_subnets: u64) -> (topics: Vec<Topic>)
    ensures
        topics@ == all_topics(attestation_subnets, sync_subnets),
{
    let mut topics: Vec<Topic> = Vec::new();
    topics.push(Topic::Blocks);
    let ghost start = topics@;
    assert(start =~= seq![Topic::Blocks]);
    let mut subnet: u64 = 0;
    while subnet < attestation_subnets
        invariant
            subnet <= attestation_subnets,
            topics@ =~= start + attestation_topics(subnet as nat),
        decreases attestation_subnets - subnet,
    {
        topics.push(Topic::Attestations(subnet));
        topics.push(Topic::Aggregates(subnet));
        assert(topics@ =~= start + attestation_topics((subnet + 1) as nat));
        subnet = subnet + 1;
    }
    let ghost middle = topics@;
    let mut subnet: u64 = 0;
    while subnet < sync_subnets
        invariant
            subnet <= sync_subnets,
            topics@ =~= middle + sync_topics(subnet as nat),
        decreases sync_subnets - subnet,
    {
        topics.push(Topic::SyncMessages(subnet));
        topics.push(Topic::SignedContributionAndProof(subnet));
        assert(topics@ =~= middle + sync_topics((subnet + 1) as nat));
        subnet = subnet + 1;
    }
    topics
}

/// The names of all topics for so many subnets.
pub fn topic_names(attestation_subnets: u64, sync_subnets: u64) -> (names: Vec<String>)
    ensures
        names@.len() == all_topics(attestation_subnets, sync_subnets).len(),
        forall|i: int|
            0 <= i < names@.len() ==> (#[trigger] names@[i])@ == all_topics(
                attestation_subnets,
                sync_subnets,
            )[i].name(),
{
    let all: Vec<Topic> = topics(attestation_subnets, sync_subnets);
    let mut names: Vec<String> = Vec::new();
    let mut i: usize = 0;
    while i < all.len()
        invariant
            i <= all@.len(),
            names@.len() == i,
            forall|k: int| 0 <= k < names@.len() ==> (#[trigger] names@[k])@ == all@[k].name(),
        decreases all@.len() - i,
    {
        names.push(all[i].to_text());
        i = i + 1;
    }
    names
}

} // verus!
