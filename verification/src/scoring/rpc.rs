//! The messages of the gossipsub protocol and their sizes on the wire.

use vstd::prelude::*;
use vstd::utf8::encode_utf8;

verus! {

/// How many bytes a number takes: one for each seven bits of it, and one for zero.
pub open spec fn varint_len(n: nat) -> nat
    decreases n,
{
    if n < 128 {
        1
    } else {
        1 + varint_len(n / 128)
    }
}

/// `prost::encoding::encoded_len_varint`.
///
/// Trusted: the length of the variable length form of a number, which has seven bits in each byte.
pub assume_specification[ prost::encoding::encoded_len_varint ](value: u64) -> (len: usize)
    ensures
        len == varint_len(value as nat),
;

/// A size, cut off at the largest number that a machine word holds.
pub open spec fn cap(size: nat) -> usize {
    if size <= usize::MAX {
        size as usize
    } else {
        usize::MAX
    }
}

/// How many bytes a field with contents of `len` bytes takes: its key, the length and the contents.
pub open spec fn field_size(len: nat) -> nat {
    1 + varint_len(len) + len
}

/// Something that has a size on the wire.
pub trait Encoded {
    /// The size on the wire.
    spec fn size(&self) -> nat;

    /// The size on the wire, cut off at the largest number that a machine word holds.
    fn encoded_len(&self) -> (len: usize)
        ensures
            len == cap(self.size()),
    ;
}

/// The size of a repeated field.
pub open spec fn repeated_size<T: Encoded>(items: Seq<T>) -> nat
    decreases items.len(),
{
    if items.len() == 0 {
        0
    } else {
        repeated_size(items.drop_last()) + field_size(items.last().size())
    }
}

/// The size of an optional field that holds bytes.
pub open spec fn bytes_size(field: Option<Vec<u8>>) -> nat {
    match field {
        Some(bytes) => field_size(bytes@.len()),
        None => 0,
    }
}

/// The size of an optional field that holds a text.
pub open spec fn text_size(field: Option<String>) -> nat {
    match field {
        Some(text) => field_size(encode_utf8(text@).len()),
        None => 0,
    }
}

/// A subscription or its end.
#[derive(Debug)]
pub struct SubOpts {
    pub subscribe: Option<bool>,
    pub topic_id: Option<String>,
}

/// A published message.
#[derive(Debug)]
pub struct PublishedMessage {
    pub from: Option<Vec<u8>>,
    pub data: Option<Vec<u8>>,
    pub seqno: Option<Vec<u8>>,
    pub topic: String,
    pub signature: Option<Vec<u8>>,
    pub key: Option<Vec<u8>>,
}

/// Tells which messages of a topic the sender has.
#[derive(Debug)]
pub struct ControlIHave {
    pub topic_id: Option<String>,
    pub message_ids: Vec<Vec<u8>>,
}

/// Asks for messages.
#[derive(Debug)]
pub struct ControlIWant {
    pub message_ids: Vec<Vec<u8>>,
}

/// Asks to be let into the mesh of a topic.
#[derive(Debug)]
pub struct ControlGraft {
    pub topic_id: Option<String>,
}

/// Another peer.
#[derive(Debug)]
pub struct PeerInfo {
    pub peer_id: Option<Vec<u8>>,
    pub signed_peer_record: Option<Vec<u8>>,
}

/// Tells that the receiver was removed from the mesh of a topic.
#[derive(Debug)]
pub struct ControlPrune {
    pub topic_id: Option<String>,
    pub peers: Vec<PeerInfo>,
    pub backoff: Option<u64>,
}

/// Control messages.
#[derive(Debug)]
pub struct ControlMessage {
    pub ihave: Vec<ControlIHave>,
    pub iwant: Vec<ControlIWant>,
    pub graft: Vec<ControlGraft>,
    pub prune: Vec<ControlPrune>,
}

/// What is sent at once.
#[derive(Debug)]
pub struct Rpc {
    pub subscriptions: Vec<SubOpts>,
    pub publish: Vec<PublishedMessage>,
    pub control: Option<ControlMessage>,
}

/// Adds two sizes.
fn plus(a: usize, b: usize) -> (sum: usize)
    ensures
        forall|x: nat, y: nat|
            a == #[trigger] cap(x) && b == #[trigger] cap(y) ==> sum == cap(x + y),
{
    a.saturating_add(b)
}

proof fn lemma_varint_len(n: nat)
    ensures
        varint_len(n) >= 1,
    decreases n,
{
    if n >= 128 {
        lemma_varint_len(n / 128);
    }
}

/// The size of a field with contents of a size.
fn field_len(len: usize) -> (sum: usize)
    ensures
        forall|n: nat| len == #[trigger] cap(n) ==> sum == cap(field_size(n)),
{
    let key_and_length: usize = prost::encoding::encoded_len_varint(len as u64);
    proof {
        lemma_varint_len(len as nat);
        assert forall|n: nat| len == #[trigger] cap(n) implies cap(
            (len + key_and_length + 1) as nat,
        ) == cap(field_size(n)) by {
            if n > usize::MAX {
                lemma_varint_len(n);
            }
        }
    }
    len.saturating_add(key_and_length).saturating_add(1)
}

/// The size of an optional field that holds bytes.
fn bytes_len(field: &Option<Vec<u8>>) -> (len: usize)
    ensures
        len == cap(bytes_size(*field)),
{
    match field {
        Some(bytes) => {
            let len: usize = bytes.len();
            assert(len == cap(bytes@.len()));
            field_len(len)
        },
        None => 0,
    }
}

/// The size of an optional field that holds a text.
fn text_len(field: &Option<String>) -> (len: usize)
    ensures
        len == cap(text_size(*field)),
{
    match field {
        Some(text) => {
            let bytes: usize = text.as_str().as_bytes().len();
            assert(bytes == cap(encode_utf8(text@).len()));
            field_len(bytes)
        },
        None => 0,
    }
}

/// The size of a repeated field.
fn repeated_len<T: Encoded>(items: &Vec<T>) -> (len: usize)
    ensures
        len == cap(repeated_size(items@)),
{
    let mut len: usize = 0;
    let mut i: usize = 0;
    assert(len == cap(repeated_size(items@.take(0))));
    while i < items.len()
        invariant
            i <= items@.len(),
            len == cap(repeated_size(items@.take(i as int))),
        decreases items@.len() - i,
    {
        proof {
            let next = items@.take(i + 1);
            assert(next.drop_last() =~= items@.take(i as int));
            assert(next.last() == items@[i as int]);
        }
        len = plus(len, field_len(items[i].encoded_len()));
        i = i + 1;
    }
    assert(items@.take(i as int) =~= items@);
    len
}

impl Encoded for Vec<u8> {
    open spec fn size(&self) -> nat {
        self@.len()
    }

    fn encoded_len(&self) -> (len: usize) {
        self.len()
    }
}

impl Encoded for SubOpts {
    open spec fn size(&self) -> nat {
        (if self.subscribe is Some {
            2nat
        } else {
            0nat
        }) + text_size(self.topic_id)
    }

    fn encoded_len(&self) -> (len: usize) {
        let flag: usize = if self.subscribe.is_some() {
            2
        } else {
            0
        };
        assert(flag == cap(flag as nat));
        plus(flag, text_len(&self.topic_id))
    }
}

impl Encoded for PublishedMessage {
    open spec fn size(&self) -> nat {
        bytes_size(self.from) + bytes_size(self.data) + bytes_size(self.seqno) + field_size(
            encode_utf8(self.topic@).len(),
        ) + bytes_size(self.signature) + bytes_size(self.key)
    }

    fn encoded_len(&self) -> (len: usize) {
        let topic: usize = self.topic.as_str().as_bytes().len();
        assert(topic == cap(encode_utf8(self.topic@).len()));
        let start: usize = plus(
            plus(bytes_len(&self.from), bytes_len(&self.data)),
            bytes_len(&self.seqno),
        );
        plus(
            plus(plus(start, field_len(topic)), bytes_len(&self.signature)),
            bytes_len(&self.key),
        )
    }
}

impl Encoded for ControlIHave {
    open spec fn size(&self) -> nat {
        text_size(self.topic_id) + repeated_size(self.message_ids@)
    }

    fn encoded_len(&self) -> (len: usize) {
        plus(text_len(&self.topic_id), repeated_len(&self.message_ids))
    }
}

impl Encoded for ControlIWant {
    open spec fn size(&self) -> nat {
        repeated_size(self.message_ids@)
    }

    fn encoded_len(&self) -> (len: usize) {
        repeated_len(&self.message_ids)
    }
}

impl Encoded for ControlGraft {
    open spec fn size(&self) -> nat {
        text_size(self.topic_id)
    }

    fn encoded_len(&self) -> (len: usize) {
        text_len(&self.topic_id)
    }
}

impl Encoded for PeerInfo {
    open spec fn size(&self) -> nat {
        bytes_size(self.peer_id) + bytes_size(self.signed_peer_record)
    }

    fn encoded_len(&self) -> (len: usize) {
        plus(bytes_len(&self.peer_id), bytes_len(&self.signed_peer_record))
    }
}

impl Encoded for ControlPrune {
    open spec fn size(&self) -> nat {
        text_size(self.topic_id) + repeated_size(self.peers@) + match self.backoff {
            Some(backoff) => 1 + varint_len(backoff as nat),
            None => 0nat,
        }
    }

    fn encoded_len(&self) -> (len: usize) {
        let backoff: usize = match self.backoff {
            Some(backoff) => prost::encoding::encoded_len_varint(backoff).saturating_add(1),
            None => 0,
        };
        assert(backoff == cap(
            match self.backoff {
                Some(backoff) => 1 + varint_len(backoff as nat),
                None => 0nat,
            },
        ));
        plus(plus(text_len(&self.topic_id), repeated_len(&self.peers)), backoff)
    }
}

/// What a [`ControlMessage`] stands for.
#[verifier::ext_equal]
pub struct ControlView {
    pub ihave: Seq<ControlIHave>,
    pub iwant: Seq<ControlIWant>,
    pub graft: Seq<ControlGraft>,
    pub prune: Seq<ControlPrune>,
}

/// What an [`Rpc`] stands for.
#[verifier::ext_equal]
pub struct RpcView {
    pub subscriptions: Seq<SubOpts>,
    pub publish: Seq<PublishedMessage>,
    pub control: Option<ControlView>,
}

impl ControlView {
    /// No control messages.
    pub open spec fn empty() -> ControlView {
        ControlView {
            ihave: Seq::empty(),
            iwant: Seq::empty(),
            graft: Seq::empty(),
            prune: Seq::empty(),
        }
    }

    /// The size on the wire.
    pub open spec fn size(self) -> nat {
        repeated_size(self.ihave) + repeated_size(self.iwant) + repeated_size(self.graft)
            + repeated_size(self.prune)
    }
}

impl RpcView {
    /// Nothing to send.
    pub open spec fn empty() -> RpcView {
        RpcView { subscriptions: Seq::empty(), publish: Seq::empty(), control: None }
    }

    /// The size on the wire.
    pub open spec fn size(self) -> nat {
        repeated_size(self.subscriptions) + repeated_size(self.publish) + match self.control {
            Some(control) => field_size(control.size()),
            None => 0,
        }
    }
}

impl View for ControlMessage {
    type V = ControlView;

    open spec fn view(&self) -> ControlView {
        ControlView {
            ihave: self.ihave@,
            iwant: self.iwant@,
            graft: self.graft@,
            prune: self.prune@,
        }
    }
}

impl View for Rpc {
    type V = RpcView;

    open spec fn view(&self) -> RpcView {
        RpcView {
            subscriptions: self.subscriptions@,
            publish: self.publish@,
            control: match self.control {
                Some(control) => Some(control@),
                None => None,
            },
        }
    }
}

impl Encoded for ControlMessage {
    open spec fn size(&self) -> nat {
        self@.size()
    }

    fn encoded_len(&self) -> (len: usize) {
        let start: usize = plus(repeated_len(&self.ihave), repeated_len(&self.iwant));
        plus(plus(start, repeated_len(&self.graft)), repeated_len(&self.prune))
    }
}

impl Encoded for Rpc {
    open spec fn size(&self) -> nat {
        self@.size()
    }

    fn encoded_len(&self) -> (len: usize) {
        let start: usize = plus(repeated_len(&self.subscriptions), repeated_len(&self.publish));
        match &self.control {
            Some(control) => plus(start, field_len(control.encoded_len())),
            None => start,
        }
    }
}

} // verus!
