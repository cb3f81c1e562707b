//! The keys of the store: the head under `head`, each record under
//! `record:` and its path, each commit under `commit:` and its CID.

use vstd::prelude::*;
use vstd::string::*;

use crate::text::{concat, concat3};
use crate::types::record_path;

verus! {

/// The key under which the head is stored.
pub const HEAD_KEY: &'static str = "head";

/// The prefix of the keys of commits.
pub const COMMITS_PREFIX: &'static str = "commit:";

/// The prefix of the keys of records.
pub const RECORDS_PREFIX: &'static str = "record:";

/// The key under which the head is stored.
pub open spec fn head_key() -> Seq<char> {
    "head"@
}

/// The prefix of the keys under which records are stored.
pub open spec fn record_prefix() -> Seq<char> {
    "record:"@
}

/// The prefix of the keys under which commits are stored.
pub open spec fn commit_prefix() -> Seq<char> {
    "commit:"@
}

/// The key under which the record of a path is stored.
pub open spec fn record_key_of(path: Seq<char>) -> Seq<char> {
    record_prefix() + path
}

/// The key under which the commit of a CID is stored.
pub open spec fn commit_key_of(cid: Seq<char>) -> Seq<char> {
    commit_prefix() + cid
}

/// The prefix of the keys under which the records of a collection are
/// stored.
pub open spec fn collection_prefix_of(collection: Seq<char>) -> Seq<char> {
    record_prefix() + collection + seq!['/']
}

/// The key of the commit of a CID: `commit:` and the CID.
pub fn commit_key(cid: &str) -> (key: String)
    ensures
        key@ == commit_key_of(cid@),
        commit_prefix().is_prefix_of(key@),
{
    let key = concat("commit:", cid);
    assert(key@.subrange(0, commit_prefix().len() as int) =~= commit_prefix());
    key
}

/// The key of a record: `record:`, the collection, a slash, the record key.
pub fn record_key(collection: &str, rkey: &str) -> (key: String)
    ensures
        key@ == record_key_of(record_path(collection@, rkey@)),
        record_prefix().is_prefix_of(key@),
        collection_prefix_of(collection@).is_prefix_of(key@),
{
    proof {
        reveal_strlit("/");
    }
    let mut key = concat3("record:", collection, "/");
    key.append(rkey);
    assert(key@ =~= record_key_of(record_path(collection@, rkey@)));
    assert(key@.subrange(0, record_prefix().len() as int) =~= record_prefix());
    assert(key@.subrange(0, collection_prefix_of(collection@).len() as int)
        =~= collection_prefix_of(collection@));
    key
}

/// The prefix of the keys of the records of a collection: `record:`, the
/// collection, a slash.
pub fn collection_prefix(collection: &str) -> (prefix: String)
    ensures
        prefix@ == collection_prefix_of(collection@),
{
    proof {
        reveal_strlit("/");
    }
    let prefix = concat3("record:", collection, "/");
    assert(prefix@ =~= collection_prefix_of(collection@));
    prefix
}

} // verus!
