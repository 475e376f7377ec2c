//! Message ids from message digests.

use sha2::Digest;
use vstd::prelude::*;
use vstd::string::StrSliceExecFns;
use vstd::utf8::encode_utf8;

verus! {

/// The SHA-256 digest of `data`.
pub uninterp spec fn sha256(data: Seq<u8>) -> Seq<u8>;

/// `Sha256::digest`.
///
/// Trusted: the digest depends on the data alone and has 32 bytes.
#[verifier::external_body]
pub(crate) fn sha256_digest(data: &Vec<u8>) -> (digest: Vec<u8>)
    ensures
        digest@ == sha256(data@),
        digest@.len() == 32,
{
    sha2::Sha256::digest(data.as_slice()).to_vec()
}

/// The id of a message whose topic and data have that digest: its first twenty bytes.
pub fn digest_to_id(digest: Vec<u8>) -> (id: Vec<u8>)
    requires
        digest@.len() >= 20,
    ensures
        id@ == digest@.take(20),
{
    let mut id: Vec<u8> = digest;
    id.truncate(20);
    assert(id@ =~= digest@.take(20));
    id
}

/// The id of a message: the start of the digest of its topic followed by its data.
pub fn gossip_message_id(topic: &str, data: &Vec<u8>) -> (id: Vec<u8>)
    ensures
        id@ == sha256(encode_utf8(topic@) + data@).take(20),
        id@.len() == 20,
{
    let mut bytes: Vec<u8> = topic.as_bytes_vec();
    bytes.extend_from_slice(data.as_slice());
    assert(bytes@ =~= encode_utf8(topic@) + data@);
    digest_to_id(sha256_digest(&bytes))
}

} // verus!
