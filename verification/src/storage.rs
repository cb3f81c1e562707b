//! What the store holds for a repository, and how it is read: the head under
//! one key, each record under the key of its path, each commit under the key
//! of its CID.

use vstd::prelude::*;
use vstd::string::*;

use crate::assoc::{lemma_paired_empty, lemma_paired_push, lemma_paired_update, no_repeats, paired};
use crate::codec::{commit_bytes, commit_of_bytes, record_bytes, record_of_bytes};
use crate::error::Error;
use crate::index::record_paths;
use crate::records::keys::{
    commit_key, commit_key_of, commit_prefix, head_key, record_key, record_key_of, record_prefix,
    COMMITS_PREFIX, HEAD_KEY, RECORDS_PREFIX,
};
use crate::text::{concat, same_text, utf8_to_string};
use crate::traits::{key_texts, lists_keys, looked_up, KvStore};
use crate::types::{
    cid_tag, cid_view, commit_views, record_views, Cid, Commit, CommitView, Record, RecordView,
};

verus! {

/// The head that a store holds: none where nothing is stored under the head
/// key, a CID where the bytes there are the text of one. The outer `None` is
/// for bytes that are no such text.
pub open spec fn stored_head(store: Map<Seq<char>, Seq<u8>>) -> Option<Option<Seq<char>>> {
    match looked_up(store, head_key()) {
        None => Some(None),
        Some(bytes) => if vstd::utf8::valid_utf8(bytes) && cid_tag().is_prefix_of(
            vstd::utf8::decode_utf8(bytes),
        ) {
            Some(Some(vstd::utf8::decode_utf8(bytes)))
        } else {
            None
        },
    }
}

/// What the store holds under each of the keys, read as records.
pub open spec fn records_under(store: Map<Seq<char>, Seq<u8>>, keys: Seq<String>) -> Seq<
    Option<RecordView>,
> {
    Seq::new(keys.len(), |i: int| record_of_bytes(store[keys[i]@]))
}

/// What the store holds under each of the keys, read as commits.
pub open spec fn commits_under(store: Map<Seq<char>, Seq<u8>>, keys: Seq<String>) -> Seq<
    Option<CommitView>,
> {
    Seq::new(keys.len(), |i: int| commit_of_bytes(store[keys[i]@]))
}

/// Whether every item is there.
pub open spec fn all_some<T>(items: Seq<Option<T>>) -> bool {
    forall|i: int| 0 <= i < items.len() ==> (#[trigger] items[i]) is Some
}

/// The items themselves.
pub open spec fn unwrapped<T>(items: Seq<Option<T>>) -> Seq<T> {
    Seq::new(items.len(), |i: int| items[i].unwrap())
}

/// Whether `records` are the records of the store in the order of the
/// listing `keys` of the record keys.
pub open spec fn records_listed(
    store: Map<Seq<char>, Seq<u8>>,
    keys: Seq<String>,
    records: Seq<RecordView>,
) -> bool {
    &&& lists_keys(keys, store, record_prefix())
    &&& all_some(records_under(store, keys))
    &&& records == unwrapped(records_under(store, keys))
}

/// Whether `commits` are the commits of the store in the order of the
/// listing `keys` of the commit keys.
pub open spec fn commits_listed(
    store: Map<Seq<char>, Seq<u8>>,
    keys: Seq<String>,
    commits: Seq<CommitView>,
) -> bool {
    &&& lists_keys(keys, store, commit_prefix())
    &&& all_some(commits_under(store, keys))
    &&& commits == unwrapped(commits_under(store, keys))
}

/// Whether everything stored under a record key is a record.
pub open spec fn records_readable(store: Map<Seq<char>, Seq<u8>>) -> bool {
    forall|k: Seq<char>|
        store.contains_key(k) && record_prefix().is_prefix_of(k) ==> record_of_bytes(
            #[trigger] store[k],
        ) is Some
}

/// Whether everything stored under a commit key is a commit.
pub open spec fn commits_readable(store: Map<Seq<char>, Seq<u8>>) -> bool {
    forall|k: Seq<char>|
        store.contains_key(k) && commit_prefix().is_prefix_of(k) ==> commit_of_bytes(
            #[trigger] store[k],
        ) is Some
}

/// The records by path; of two records with one path the later one stays.
pub open spec fn by_path(records: Seq<RecordView>) -> Map<Seq<char>, RecordView>
    decreases records.len(),
{
    if records.len() == 0 {
        Map::empty()
    } else {
        by_path(records.drop_last()).insert(records.last().path(), records.last())
    }
}

/// Reads the head that the store holds. Bytes under the head key that are
/// not the text of a CID are refused with `StorageError`.
pub fn read_head<S: KvStore>(store: &S) -> (r: Result<Option<Cid>, Error>)
    ensures
        match r {
            Ok(head) => stored_head(store.contents()) == Some(cid_view(head)),
            Err(e) => store.dependable() ==> e is StorageError && stored_head(store.contents())
                is None,
        },
        store.dependable() && stored_head(store.contents()) is Some ==> r is Ok,
{
    let found = match store.get(HEAD_KEY) {
        Ok(found) => found,
        Err(e) => {
            return Err(e);
        },
    };
    match found {
        None => Ok(None),
        Some(bytes) => {
            let text = match utf8_to_string(bytes.as_slice()) {
                Some(text) => text,
                None => {
                    return Err(Error::StorageError("Stored head is not text".to_owned()));
                },
            };
            match Cid::from_string(text.as_str()) {
                Ok(cid) => Ok(Some(cid)),
                Err(_) => Err(
                    Error::StorageError(concat("Stored head is not a CID: ", text.as_str())),
                ),
            }
        },
    }
}

/// Reads the records under the given keys, in their order.
fn read_records_at<S: KvStore>(store: &S, keys: &Vec<String>) -> (r: Result<Vec<Record>, Error>)
    requires
        forall|i: int| 0 <= i < keys@.len() ==> store.contents().contains_key(#[trigger] keys@[i]@),
    ensures
        match r {
            Ok(records) => all_some(records_under(store.contents(), keys@)) && record_views(
                records@,
            ) == unwrapped(records_under(store.contents(), keys@)),
            Err(e) => store.dependable() ==> e is SerializationError && !all_some(
                records_under(store.contents(), keys@),
            ),
        },
        store.dependable() && all_some(records_under(store.contents(), keys@)) ==> r is Ok,
{
    let ghost under = records_under(store.contents(), keys@);
    let mut records: Vec<Record> = Vec::new();
    let mut i: usize = 0;
    while i < keys.len()
        invariant
            i <= keys@.len(),
            under == records_under(store.contents(), keys@),
            forall|j: int| 0 <= j < keys@.len() ==> store.contents().contains_key(#[trigger] keys@[j]@),
            records@.len() == i,
            forall|j: int| 0 <= j < i ==> under[j] == Some((#[trigger] records@[j])@),
        decreases keys@.len() - i,
    {
        assert(store.contents().contains_key(keys@[i as int]@));
        let found = match store.get(keys[i].as_str()) {
            Ok(found) => found,
            Err(e) => {
                return Err(e);
            },
        };
        let bytes = match found {
            Some(bytes) => bytes,
            None => {
                return Err(Error::StorageError("Listed key is absent".to_owned()));
            },
        };
        let record = match Record::from_bytes(bytes.as_slice()) {
            Ok(record) => record,
            Err(e) => {
                assert(under[i as int] is None);
                return Err(e);
            },
        };
        assert(under[i as int] == Some(record@));
        records.push(record);
        i += 1;
    }
    proof {
        assert forall|j: int| 0 <= j < under.len() implies (#[trigger] under[j]) is Some by {
            assert(under[j] == Some(records@[j]@));
        }
        assert forall|j: int| 0 <= j < records@.len() implies record_views(records@)[j]
            == unwrapped(under)[j] by {
            assert(under[j] == Some(records@[j]@));
        }
        assert(record_views(records@) =~= unwrapped(under));
    }
    Ok(records)
}

/// Reads the commits under the given keys, in their order.
fn read_commits_at<S: KvStore>(store: &S, keys: &Vec<String>) -> (r: Result<Vec<Commit>, Error>)
    requires
        forall|i: int| 0 <= i < keys@.len() ==> store.contents().contains_key(#[trigger] keys@[i]@),
    ensures
        match r {
            Ok(commits) => all_some(commits_under(store.contents(), keys@)) && commit_views(
                commits@,
            ) == unwrapped(commits_under(store.contents(), keys@)),
            Err(e) => store.dependable() ==> e is SerializationError && !all_some(
                commits_under(store.contents(), keys@),
            ),
        },
        store.dependable() && all_some(commits_under(store.contents(), keys@)) ==> r is Ok,
{
    let ghost under = commits_under(store.contents(), keys@);
    let mut commits: Vec<Commit> = Vec::new();
    let mut i: usize = 0;
    while i < keys.len()
        invariant
            i <= keys@.len(),
            under == commits_under(store.contents(), keys@),
            forall|j: int| 0 <= j < keys@.len() ==> store.contents().contains_key(#[trigger] keys@[j]@),
            commits@.len() == i,
            forall|j: int| 0 <= j < i ==> under[j] == Some((#[trigger] commits@[j])@),
        decreases keys@.len() - i,
    {
        assert(store.contents().contains_key(keys@[i as int]@));
        let found = match store.get(keys[i].as_str()) {
            Ok(found) => found,
            Err(e) => {
                return Err(e);
            },
        };
        let bytes = match found {
            Some(bytes) => bytes,
            None => {
                return Err(Error::StorageError("Listed key is absent".to_owned()));
            },
        };
        let commit = match Commit::from_bytes(bytes.as_slice()) {
            Ok(commit) => commit,
            Err(e) => {
                assert(under[i as int] is None);
                return Err(e);
            },
        };
        assert(under[i as int] == Some(commit@));
        commits.push(commit);
        i += 1;
    }
    proof {
        assert forall|j: int| 0 <= j < under.len() implies (#[trigger] under[j]) is Some by {
            assert(under[j] == Some(commits@[j]@));
        }
        assert forall|j: int| 0 <= j < commits@.len() implies commit_views(commits@)[j]
            == unwrapped(under)[j] by {
            assert(under[j] == Some(commits@[j]@));
        }
        assert(commit_views(commits@) =~= unwrapped(under));
    }
    Ok(commits)
}

/// Under a listing of the record keys, everything reads as a record exactly
/// when everything stored under a record key does.
proof fn lemma_records_readable(store: Map<Seq<char>, Seq<u8>>, keys: Seq<String>)
    requires
        lists_keys(keys, store, record_prefix()),
    ensures
        all_some(records_under(store, keys)) == records_readable(store),
        forall|i: int| 0 <= i < keys.len() ==> store.contains_key(#[trigger] keys[i]@),
{
    let texts = key_texts(keys);
    let under = records_under(store, keys);
    assert forall|i: int| 0 <= i < keys.len() implies store.contains_key(#[trigger] keys[i]@) by {
        assert(texts[i] == keys[i]@);
        assert(texts.contains(keys[i]@));
    }
    if records_readable(store) {
        assert forall|i: int| 0 <= i < under.len() implies (#[trigger] under[i]) is Some by {
            assert(texts[i] == keys[i]@);
            assert(texts.contains(keys[i]@));
            assert(record_of_bytes(store[keys[i]@]) is Some);
        }
    }
    if all_some(under) {
        assert forall|k: Seq<char>|
            store.contains_key(k) && record_prefix().is_prefix_of(k) implies record_of_bytes(
            #[trigger] store[k],
        ) is Some by {
            assert(texts.contains(k));
            let i = choose|i: int| 0 <= i < texts.len() && texts[i] == k;
            assert(keys[i]@ == k);
            assert(under[i] is Some);
        }
    }
}

/// Under a listing of the commit keys, everything reads as a commit exactly
/// when everything stored under a commit key does.
proof fn lemma_commits_readable(store: Map<Seq<char>, Seq<u8>>, keys: Seq<String>)
    requires
        lists_keys(keys, store, commit_prefix()),
    ensures
        all_some(commits_under(store, keys)) == commits_readable(store),
        forall|i: int| 0 <= i < keys.len() ==> store.contains_key(#[trigger] keys[i]@),
{
    let texts = key_texts(keys);
    let under = commits_under(store, keys);
    assert forall|i: int| 0 <= i < keys.len() implies store.contains_key(#[trigger] keys[i]@) by {
        assert(texts[i] == keys[i]@);
        assert(texts.contains(keys[i]@));
    }
    if commits_readable(store) {
        assert forall|i: int| 0 <= i < under.len() implies (#[trigger] under[i]) is Some by {
            assert(texts[i] == keys[i]@);
            assert(texts.contains(keys[i]@));
            assert(commit_of_bytes(store[keys[i]@]) is Some);
        }
    }
    if all_some(under) {
        assert forall|k: Seq<char>|
            store.contains_key(k) && commit_prefix().is_prefix_of(k) implies commit_of_bytes(
            #[trigger] store[k],
        ) is Some by {
            assert(texts.contains(k));
            let i = choose|i: int| 0 <= i < texts.len() && texts[i] == k;
            assert(keys[i]@ == k);
            assert(under[i] is Some);
        }
    }
}

/// Reads every record that the store holds, in the order in which the store
/// lists the record keys. Stored bytes that are no record are refused with
/// `SerializationError`.
pub fn read_records<S: KvStore>(store: &S) -> (r: Result<Vec<Record>, Error>)
    ensures
        match r {
            Ok(records) => exists|keys: Seq<String>| #[trigger]
                records_listed(store.contents(), keys, record_views(records@)),
            Err(e) => store.dependable() ==> e is SerializationError && !records_readable(
                store.contents(),
            ),
        },
        store.dependable() && records_readable(store.contents()) ==> r is Ok,
{
    let keys = match store.list_keys(RECORDS_PREFIX) {
        Ok(keys) => keys,
        Err(e) => {
            return Err(e);
        },
    };
    proof {
        lemma_records_readable(store.contents(), keys@);
    }
    match read_records_at(store, &keys) {
        Ok(records) => {
            assert(records_listed(store.contents(), keys@, record_views(records@)));
            Ok(records)
        },
        Err(e) => Err(e),
    }
}

/// Reads every commit that the store holds, in the order in which the store
/// lists the commit keys. Stored bytes that are no commit are refused with
/// `SerializationError`.
pub fn read_commits<S: KvStore>(store: &S) -> (r: Result<Vec<Commit>, Error>)
    ensures
        match r {
            Ok(commits) => exists|keys: Seq<String>| #[trigger]
                commits_listed(store.contents(), keys, commit_views(commits@)),
            Err(e) => store.dependable() ==> e is SerializationError && !commits_readable(
                store.contents(),
            ),
        },
        store.dependable() && commits_readable(store.contents()) ==> r is Ok,
{
    let keys = match store.list_keys(COMMITS_PREFIX) {
        Ok(keys) => keys,
        Err(e) => {
            return Err(e);
        },
    };
    proof {
        lemma_commits_readable(store.contents(), keys@);
    }
    match read_commits_at(store, &keys) {
        Ok(commits) => {
            assert(commits_listed(store.contents(), keys@, commit_views(commits@)));
            Ok(commits)
        },
        Err(e) => Err(e),
    }
}

/// Keeps one record for each path: of two records with one path the later
/// one, at the place of the earlier.
pub fn latest_by_path(records: Vec<Record>) -> (out: Vec<Record>)
    ensures
        no_repeats(record_paths(out@)),
        paired(record_paths(out@), record_views(out@)) == by_path(record_views(records@)),
{
    let mut out: Vec<Record> = Vec::new();
    let mut i: usize = 0;
    proof {
        lemma_paired_empty(record_paths(out@), record_views(out@));
        assert(record_views(records@).take(0) =~= Seq::<RecordView>::empty());
    }
    while i < records.len()
        invariant
            i <= records@.len(),
            no_repeats(record_paths(out@)),
            paired(record_paths(out@), record_views(out@)) == by_path(
                record_views(records@).take(i as int),
            ),
        decreases records@.len() - i,
    {
        let record = records[i].clone();
        let path = record.path();
        let ghost paths = record_paths(out@);
        let ghost views = record_views(out@);
        let mut j: usize = 0;
        let mut place: Option<usize> = None;
        while place.is_none() && j < out.len()
            invariant
                j <= out@.len(),
                paths == record_paths(out@),
                match place {
                    Some(k) => k < out@.len() && paths[k as int] == path@,
                    None => forall|k: int| 0 <= k < j ==> paths[k] != path@,
                },
            decreases out@.len() - j + (if place is None { 1int } else { 0int }),
        {
            let p = out[j].path();
            if same_text(p.as_str(), path.as_str()) {
                assert(paths[j as int] == out@[j as int]@.path());
                place = Some(j);
            } else {
                assert(paths[j as int] == out@[j as int]@.path());
                j += 1;
            }
        }
        proof {
            let all = record_views(records@);
            assert(all.take(i as int + 1).drop_last() =~= all.take(i as int));
            assert(all.take(i as int + 1).last() == records@[i as int]@);
        }
        match place {
            Some(k) => {
                proof {
                    assert(paths[k as int] == path@);
                    lemma_paired_update(paths, views, k as int, record@);
                    assert(record_paths(out@.update(k as int, record)) =~= paths);
                    assert(record_views(out@.update(k as int, record)) =~= views.update(
                        k as int,
                        record@,
                    ));
                }
                out.set(k, record);
            },
            None => {
                proof {
                    assert(!paths.contains(path@)) by {
                        if paths.contains(path@) {
                            let k = choose|k: int| 0 <= k < paths.len() && paths[k] == path@;
                            assert(paths[k] != path@);
                        }
                    }
                    lemma_paired_push(paths, views, path@, record@);
                    assert(record_paths(out@.push(record)) =~= paths.push(path@));
                    assert(record_views(out@.push(record)) =~= views.push(record@));
                }
                out.push(record);
            },
        }
        i += 1;
    }
    assert(record_views(records@).take(i as int) =~= record_views(records@));
    out
}

/// Stores a record under the key of its path.
pub fn put_record<S: KvStore>(store: &mut S, record: &Record) -> (r: Result<(), Error>)
    ensures
        r is Ok ==> final(store).contents() == old(store).contents().insert(
            record_key_of(record@.path()),
            record_bytes(record@),
        ),
        final(store).dependable() == old(store).dependable(),
        old(store).dependable() ==> r is Ok,
{
    let bytes = match record.to_bytes() {
        Ok(b) => b,
        Err(e) => {
            return Err(e);
        },
    };
    let key = record_key(record.collection.as_str(), record.rkey.as_str());
    store.put(key.as_str(), bytes.as_slice())
}

/// Stores a commit under the key of its CID.
pub fn put_commit<S: KvStore>(store: &mut S, commit: &Commit, cid: &Cid) -> (r: Result<(), Error>)
    requires
        cid@ == commit@.cid(),
    ensures
        r is Ok ==> final(store).contents() == old(store).contents().insert(
            commit_key_of(cid@),
            commit_bytes(commit@),
        ),
        final(store).dependable() == old(store).dependable(),
        old(store).dependable() ==> r is Ok,
{
    let bytes = match commit.to_bytes() {
        Ok(b) => b,
        Err(e) => {
            return Err(e);
        },
    };
    let key = commit_key(cid.as_str());
    store.put(key.as_str(), bytes.as_slice())
}

/// Stores the text of a CID under the head key.
pub fn put_head<S: KvStore>(store: &mut S, cid: &Cid) -> (r: Result<(), Error>)
    ensures
        r is Ok ==> final(store).contents() == old(store).contents().insert(
            head_key(),
            vstd::utf8::encode_utf8(cid@),
        ),
        final(store).dependable() == old(store).dependable(),
        old(store).dependable() ==> r is Ok,
{
    store.put(HEAD_KEY, cid.as_str().as_bytes())
}

/// A store after each of the commits was stored under the key of its CID.
pub open spec fn with_commits(store: Map<Seq<char>, Seq<u8>>, commits: Seq<CommitView>) -> Map<
    Seq<char>,
    Seq<u8>,
>
    decreases commits.len(),
{
    if commits.len() == 0 {
        store
    } else {
        with_commits(store, commits.drop_last()).insert(
            commit_key_of(commits.last().cid()),
            commit_bytes(commits.last()),
        )
    }
}

/// A store after each of the records was stored under the key of its path.
pub open spec fn with_records(store: Map<Seq<char>, Seq<u8>>, records: Seq<RecordView>) -> Map<
    Seq<char>,
    Seq<u8>,
>
    decreases records.len(),
{
    if records.len() == 0 {
        store
    } else {
        with_records(store, records.drop_last()).insert(
            record_key_of(records.last().path()),
            record_bytes(records.last()),
        )
    }
}

/// Stores each of the commits under the key of its CID.
pub fn write_commits<S: KvStore>(store: &mut S, commits: &Vec<Commit>) -> (r: Result<(), Error>)
    ensures
        r is Ok ==> final(store).contents() == with_commits(
            old(store).contents(),
            commit_views(commits@),
        ),
        final(store).dependable() == old(store).dependable(),
        old(store).dependable() ==> r is Ok,
{
    let ghost initial = store.contents();
    let ghost views = commit_views(commits@);
    let mut i: usize = 0;
    assert(views.take(0) =~= Seq::<CommitView>::empty());
    while i < commits.len()
        invariant
            i <= commits@.len(),
            views == commit_views(commits@),
            store.contents() == with_commits(initial, views.take(i as int)),
            store.dependable() == old(store).dependable(),
        decreases commits@.len() - i,
    {
        let cid = match commits[i].cid() {
            Ok(cid) => cid,
            Err(e) => {
                return Err(e);
            },
        };
        match put_commit(store, &commits[i], &cid) {
            Ok(_) => {},
            Err(e) => {
                return Err(e);
            },
        }
        proof {
            assert(views.take(i as int + 1).drop_last() =~= views.take(i as int));
            assert(views.take(i as int + 1).last() == commits@[i as int]@);
        }
        i += 1;
    }
    assert(views.take(i as int) =~= views);
    Ok(())
}

/// Stores each of the records under the key of its path.
pub fn write_records<S: KvStore>(store: &mut S, records: &Vec<Record>) -> (r: Result<(), Error>)
    ensures
        r is Ok ==> final(store).contents() == with_records(
            old(store).contents(),
            record_views(records@),
        ),
        final(store).dependable() == old(store).dependable(),
        old(store).dependable() ==> r is Ok,
{
    let ghost initial = store.contents();
    let ghost views = record_views(records@);
    let mut i: usize = 0;
    assert(views.take(0) =~= Seq::<RecordView>::empty());
    while i < records.len()
        invariant
            i <= records@.len(),
            views == record_views(records@),
            store.contents() == with_records(initial, views.take(i as int)),
            store.dependable() == old(store).dependable(),
        decreases records@.len() - i,
    {
        match put_record(store, &records[i]) {
            Ok(_) => {},
            Err(e) => {
                return Err(e);
            },
        }
        proof {
            assert(views.take(i as int + 1).drop_last() =~= views.take(i as int));
            assert(views.take(i as int + 1).last() == records@[i as int]@);
        }
        i += 1;
    }
    assert(views.take(i as int) =~= views);
    Ok(())
}

/// Removes everything from the store.
pub fn clear_store<S: KvStore>(store: &mut S) -> (r: Result<(), Error>)
    ensures
        r is Ok ==> final(store).contents() == Map::<Seq<char>, Seq<u8>>::empty(),
        final(store).dependable() == old(store).dependable(),
        old(store).dependable() ==> r is Ok,
{
    let keys = match store.list_keys("") {
        Ok(keys) => keys,
        Err(e) => {
            return Err(e);
        },
    };
    let ghost initial = store.contents();
    let ghost texts = key_texts(keys@);
    proof {
        reveal_strlit("");
    }
    let mut i: usize = 0;
    while i < keys.len()
        invariant
            i <= keys@.len(),
            texts == key_texts(keys@),
            store.dependable() == old(store).dependable(),
            forall|k: Seq<char>| #[trigger]
                store.contents().contains_key(k) ==> initial.contains_key(k) && !texts.take(
                    i as int,
                ).contains(k),
        decreases keys@.len() - i,
    {
        let ghost before = store.contents();
        match store.delete(keys[i].as_str()) {
            Ok(_) => {},
            Err(e) => {
                return Err(e);
            },
        }
        proof {
            assert forall|k: Seq<char>| #[trigger]
                store.contents().contains_key(k) implies initial.contains_key(k) && !texts.take(
                i as int + 1,
            ).contains(k) by {
                assert(before.contains_key(k));
                assert(k != keys@[i as int]@);
                let next = texts.take(i as int + 1);
                let seen = texts.take(i as int);
                assert(initial.contains_key(k) && !seen.contains(k));
                if next.contains(k) {
                    let j = choose|j: int| 0 <= j < next.len() && next[j] == k;
                    assert(next[j] == texts[j]);
                    if j < i {
                        assert(seen[j] == k);
                        assert(seen.contains(k));
                    } else {
                        assert(texts[j] == keys@[i as int]@);
                    }
                }
            }
        }
        i += 1;
    }
    proof {
        assert(texts.take(i as int) =~= texts);
        assert forall|k: Seq<char>| !store.contents().contains_key(k) by {
            if store.contents().contains_key(k) {
                assert(initial.contains_key(k));
                assert(""@.is_prefix_of(k));
                assert(texts.contains(k));
            }
        }
        assert(store.contents() =~= Map::<Seq<char>, Seq<u8>>::empty());
    }
    Ok(())
}

/// The commits that are found by following the links from a CID backwards
/// through the store, newest first: each commit is stored under the key of
/// the CID that led to it, has that CID, and names the next. Nothing is
/// found where a commit is missing, is unreadable or has another CID, or
/// where more than `limit` commits would have to be followed.
pub open spec fn walk(store: Map<Seq<char>, Seq<u8>>, from: Option<Seq<char>>, limit: nat) -> Option<
    Seq<CommitView>,
>
    decreases limit,
{
    match from {
        None => Some(Seq::empty()),
        Some(cid) => if limit == 0 {
            None
        } else {
            match step(store, cid) {
                Some(commit) => match walk(store, commit.prev, (limit - 1) as nat) {
                    Some(rest) => Some(seq![commit] + rest),
                    None => None,
                },
                None => None,
            }
        },
    }
}

/// The commit that the store holds for a CID: what is stored under the key
/// of the CID, where that is a commit and has the CID.
pub open spec fn step(store: Map<Seq<char>, Seq<u8>>, cid: Seq<char>) -> Option<CommitView> {
    match looked_up(store, commit_key_of(cid)) {
        Some(bytes) => match commit_of_bytes(bytes) {
            Some(commit) => if commit.cid() == cid {
                Some(commit)
            } else {
                None
            },
            None => None,
        },
        None => None,
    }
}

/// Reads the commit that the store holds for a CID. A commit that is
/// missing or has another CID is refused with `RepositoryError`, stored
/// bytes that are no commit with `SerializationError`.
pub fn read_commit<S: KvStore>(store: &S, cid: &Cid) -> (r: Result<Commit, Error>)
    ensures
        match r {
            Ok(commit) => step(store.contents(), cid@) == Some(commit@),
            Err(e) => store.dependable() ==> step(store.contents(), cid@) is None && (
            e is RepositoryError || e is SerializationError),
        },
        store.dependable() && step(store.contents(), cid@) is Some ==> r is Ok,
{
    let key = commit_key(cid.as_str());
    let found = match store.get(key.as_str()) {
        Ok(found) => found,
        Err(e) => {
            return Err(e);
        },
    };
    let bytes = match found {
        Some(bytes) => bytes,
        None => {
            return Err(Error::RepositoryError(concat("Missing commit: ", cid.as_str())));
        },
    };
    let commit = match Commit::from_bytes(bytes.as_slice()) {
        Ok(commit) => commit,
        Err(e) => {
            return Err(e);
        },
    };
    let actual = match commit.cid() {
        Ok(actual) => actual,
        Err(e) => {
            return Err(e);
        },
    };
    if !same_text(actual.as_str(), cid.as_str()) {
        return Err(Error::RepositoryError(concat("Commit does not match its CID: ", cid.as_str())));
    }
    Ok(commit)
}

/// Following one more link: the walk from a CID is the commit of that CID,
/// then the walk from the commit that it names.
pub proof fn lemma_walk_step(
    store: Map<Seq<char>, Seq<u8>>,
    cid: Seq<char>,
    commit: CommitView,
    limit: nat,
)
    requires
        limit > 0,
        step(store, cid) == Some(commit),
    ensures
        walk(store, Some(cid), limit) == match walk(store, commit.prev, (limit - 1) as nat) {
            Some(rest) => Some(seq![commit] + rest),
            None => None,
        },
{
}

/// Follows the links from a CID backwards through the store and returns the
/// commits on the way, newest first. At most `limit` commits are followed.
pub fn follow<S: KvStore>(store: &S, from: Option<Cid>, limit: usize) -> (r: Result<
    Vec<Commit>,
    Error,
>)
    ensures
        match r {
            Ok(commits) => walk(store.contents(), cid_view(from), limit as nat) == Some(
                commit_views(commits@),
            ),
            Err(e) => store.dependable() ==> walk(store.contents(), cid_view(from), limit as nat)
                is None && (e is RepositoryError || e is SerializationError),
        },
        store.dependable() && walk(store.contents(), cid_view(from), limit as nat) is Some ==> r
            is Ok,
{
    let ghost whole = walk(store.contents(), cid_view(from), limit as nat);
    let mut commits: Vec<Commit> = Vec::new();
    let mut at = from;
    let mut left = limit;
    assert(commit_views(commits@) =~= Seq::<CommitView>::empty());
    loop
        invariant
            whole == walk(store.contents(), cid_view(from), limit as nat),
            whole == match walk(store.contents(), cid_view(at), left as nat) {
                Some(rest) => Some(commit_views(commits@) + rest),
                None => None,
            },
        decreases left,
    {
        let cid = match at {
            Some(cid) => cid,
            None => {
                assert(commit_views(commits@) + Seq::<CommitView>::empty() =~= commit_views(
                    commits@,
                ));
                return Ok(commits);
            },
        };
        if left == 0 {
            return Err(Error::RepositoryError(concat("History does not end at: ", cid.as_str())));
        }
        let commit = match read_commit(store, &cid) {
            Ok(commit) => commit,
            Err(e) => {
                return Err(e);
            },
        };
        proof {
            lemma_walk_step(store.contents(), cid@, commit@, left as nat);
            let so_far = commit_views(commits@);
            assert(commit_views(commits@.push(commit)) =~= so_far.push(commit@));
            match walk(store.contents(), commit@.prev, (left - 1) as nat) {
                Some(rest) => {
                    assert(so_far + (seq![commit@] + rest) =~= so_far.push(commit@) + rest);
                },
                None => {},
            }
        }
        at = crate::types::clone_cid(&commit.prev);
        commits.push(commit);
        left = left - 1;
    }
}

} // verus!
