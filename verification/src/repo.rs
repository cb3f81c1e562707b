//! The repository engine: an append-only chain of signed commits, and the
//! current records that the chain has led to.

use vstd::prelude::*;
use vstd::string::*;

use crate::assoc::{lemma_paired_empty, place_of};
use crate::index::{
    distinct_paths, entry_paths, indexed, lemma_entries_replaced, lemma_entries_without,
    lemma_index_absent, lemma_index_found, lemma_index_push, lemma_index_remove,
    lemma_index_update, lemma_paths_of_views, record_paths,
};
use crate::chain::{sort_by_time, sort_commits};
use crate::codec::{commit_bytes, record_bytes};
use crate::error::Error;
use crate::json::{json_model, json_text, JsonView};
use crate::snapshot::{Backup, BackupView};
use crate::records::keys::{commit_key_of, head_key, record_key, record_key_of};
use crate::storage::{
    by_path, clear_store, commits_listed, commits_readable, follow, latest_by_path, put_commit,
    put_head, put_record, read_commits, read_head, read_records, records_listed,
    records_readable, stored_head, walk, with_commits, with_records, write_commits,
    write_records,
};
use crate::text::{concat, same_text};
use crate::traits::{Clock, Crypto, KvStore};
use crate::types::{
    cid_text, cid_view, clone_cid, commit_views, path_of, record_path, record_views, Cid, Commit,
    CommitOp, CommitView, Did, Nsid, Record, RecordKey, RecordView,
};

verus! {

/// Whether each commit of a chain names the one before it: the first names
/// `base`, every other the CID of its predecessor.
pub open spec fn linked(base: Option<Seq<char>>, chain: Seq<CommitView>) -> bool {
    forall|i: int|
        0 <= i < chain.len() ==> (#[trigger] chain[i]).prev == (if i == 0 {
            base
        } else {
            Some(chain[i - 1].cid())
        })
}

/// The head after a chain: the CID of its last commit, or `base` where it is
/// empty.
pub open spec fn tip(base: Option<Seq<char>>, chain: Seq<CommitView>) -> Option<Seq<char>> {
    if chain.len() == 0 {
        base
    } else {
        Some(chain.last().cid())
    }
}

/// A repository: one owner, one chain of commits, and the records that the
/// chain has led to, over a store, a clock and a signing identity.
pub struct Repository<S: KvStore, Cl: Clock, Cr: Crypto> {
    did: Did,
    store: S,
    clock: Cl,
    crypto: Cr,
    head: Option<Cid>,
    records: Vec<Record>,
    log: Ghost<Seq<CommitView>>,
    base: Ghost<Option<Seq<char>>>,
}

/// The repository under its short name, with its capabilities in the order
/// store, signing identity, clock.
pub type Repo<K, C, T> = Repository<K, T, C>;

impl<S: KvStore, Cl: Clock, Cr: Crypto> Repository<S, Cl, Cr> {
    /// The owner of the repository.
    pub closed spec fn did_view(&self) -> Seq<char> {
        self.did@
    }

    /// The CID of the latest commit, if there is one.
    pub closed spec fn head_view(&self) -> Option<Seq<char>> {
        cid_view(self.head)
    }

    /// The current records, in the order in which their paths came to be.
    pub closed spec fn entries(&self) -> Seq<RecordView> {
        record_views(self.records@)
    }

    /// The current records by path.
    pub closed spec fn materialized(&self) -> Map<Seq<char>, RecordView> {
        indexed(self.records@)
    }

    /// What the store holds.
    pub closed spec fn store_view(&self) -> Map<Seq<char>, Seq<u8>> {
        self.store.contents()
    }

    /// The commits that this instance has appended, oldest first.
    pub closed spec fn chain(&self) -> Seq<CommitView> {
        self.log@
    }

    /// The head on which this instance began to append.
    pub closed spec fn chain_base(&self) -> Option<Seq<char>> {
        self.base@
    }

    /// The public key of the owner.
    pub closed spec fn owner_key(&self) -> Seq<u8> {
        self.crypto.public_key_bytes()
    }

    /// The key material that the signing identity hands out for a backup.
    pub closed spec fn owner_keypair(&self) -> Seq<u8> {
        self.crypto.exported_keypair()
    }

    /// Whether neither the store nor the signing identity ever fails.
    pub closed spec fn dependable(&self) -> bool {
        self.store.dependable() && self.crypto.dependable()
    }

    /// Whether the commit carries a signature that the owner's key accepts
    /// over the commit's signing payload.
    pub closed spec fn signed_by_owner(&self, c: CommitView) -> bool {
        c.signature matches Some(signature) && self.crypto.accepts(
            c.signing_payload(),
            signature,
            self.crypto.public_key_bytes(),
        )
    }

    /// The record at the path of a collection and a key, if there is one.
    pub open spec fn found(&self, collection: Seq<char>, rkey: Seq<char>) -> Option<RecordView> {
        if self.materialized().contains_key(record_path(collection, rkey)) {
            Some(self.materialized()[record_path(collection, rkey)])
        } else {
            None
        }
    }

    /// The invariant of the engine: no two records share a path, the chain is
    /// linked from its base to the head, and every commit of the chain is
    /// valid, names the owner and is signed by the owner.
    pub closed spec fn wf(&self) -> bool {
        &&& distinct_paths(self.records@)
        &&& self.head_view() == tip(self.base@, self.log@)
        &&& linked(self.base@, self.log@)
        &&& forall|i: int|
            0 <= i < self.log@.len() ==> {
                &&& (#[trigger] self.log@[i]).did == self.did@
                &&& self.log@[i].is_valid()
                &&& self.signed_by_owner(self.log@[i])
            }
    }

    /// Whether `self` is `pre` after one commit was appended: the commit is
    /// the last of the chain, names the head of `pre` as its predecessor, is
    /// signed by the owner, and its CID is the new head.
    pub open spec fn appended(
        &self,
        pre: &Self,
        operation: CommitOp,
        collection: Seq<char>,
        rkey: Seq<char>,
        record_cid: Option<Seq<char>>,
    ) -> bool {
        let c = self.chain().last();
        &&& self.chain() == pre.chain().push(c)
        &&& c.did == pre.did_view()
        &&& c.operation == operation
        &&& c.collection == collection
        &&& c.rkey == rkey
        &&& c.record_cid == record_cid
        &&& c.prev == pre.head_view()
        &&& self.signed_by_owner(c)
        &&& self.head_view() == Some(c.cid())
    }

    /// Whether `self` has the owner, the key, the base and the reliability
    /// of `pre`.
    pub open spec fn same_identity(&self, pre: &Self) -> bool {
        &&& self.did_view() == pre.did_view()
        &&& self.owner_key() == pre.owner_key()
        &&& self.owner_keypair() == pre.owner_keypair()
        &&& self.chain_base() == pre.chain_base()
        &&& self.dependable() == pre.dependable()
    }

    /// Whether `self` has the records, the head and the chain of `pre`.
    pub open spec fn same_state(&self, pre: &Self) -> bool {
        &&& self.entries() == pre.entries()
        &&& self.materialized() == pre.materialized()
        &&& self.head_view() == pre.head_view()
        &&& self.chain() == pre.chain()
    }

    /// What the store holds after a commit with its record was written: the
    /// record (where there is one) under its path, the commit under its CID,
    /// and the CID under the head key.
    pub open spec fn store_after(
        store: Map<Seq<char>, Seq<u8>>,
        record: Option<RecordView>,
        commit: CommitView,
    ) -> Map<Seq<char>, Seq<u8>> {
        let with_record = match record {
            Some(r) => store.insert(record_key_of(r.path()), record_bytes(r)),
            None => store,
        };
        with_record.insert(commit_key_of(commit.cid()), commit_bytes(commit)).insert(
            head_key(),
            vstd::utf8::encode_utf8(commit.cid()),
        )
    }

    /// Whether `self` is `pre` after the record of the given value was
    /// created and `cid` was returned.
    pub open spec fn created(
        &self,
        pre: &Self,
        collection: Seq<char>,
        rkey: Seq<char>,
        value: JsonView,
        cid: Seq<char>,
    ) -> bool {
        let record = self.entries().last();
        &&& value is Object
        &&& !pre.materialized().contains_key(record_path(collection, rkey))
        &&& cid == cid_text(json_text(value))
        &&& record.collection == collection
        &&& record.rkey == rkey
        &&& record.value == value
        &&& self.entries() == pre.entries().push(record)
        &&& self.materialized() == pre.materialized().insert(record_path(collection, rkey), record)
        &&& self.appended(pre, CommitOp::Create, collection, rkey, Some(cid))
        &&& self.store_view() == Self::store_after(
            pre.store_view(),
            Some(record),
            self.chain().last(),
        )
    }

    /// Whether `self` is `pre` after the record at the path was given a new
    /// value and `cid` was returned: the new record stands at the place of
    /// the old among the records.
    pub open spec fn updated(
        &self,
        pre: &Self,
        collection: Seq<char>,
        rkey: Seq<char>,
        value: JsonView,
        cid: Seq<char>,
    ) -> bool {
        let path = record_path(collection, rkey);
        let record = self.materialized()[path];
        &&& value is Object
        &&& pre.materialized().contains_key(path)
        &&& cid == cid_text(json_text(value))
        &&& record.collection == collection
        &&& record.rkey == rkey
        &&& record.value == value
        &&& self.entries() == pre.entries().update(
            place_of(entry_paths(pre.entries()), path),
            record,
        )
        &&& self.materialized() == pre.materialized().insert(path, record)
        &&& self.appended(pre, CommitOp::Update, collection, rkey, Some(cid))
        &&& self.store_view() == Self::store_after(
            pre.store_view(),
            Some(record),
            self.chain().last(),
        )
    }

    /// Whether `self` is `pre` after the record at the path was deleted: the
    /// record is gone from the records, the commit was written, the stored
    /// record removed, the head advanced.
    pub open spec fn deleted(&self, pre: &Self, collection: Seq<char>, rkey: Seq<char>) -> bool {
        let path = record_path(collection, rkey);
        let commit = self.chain().last();
        &&& pre.materialized().contains_key(path)
        &&& self.entries() == pre.entries().remove(place_of(entry_paths(pre.entries()), path))
        &&& self.materialized() == pre.materialized().remove(path)
        &&& self.appended(pre, CommitOp::Delete, collection, rkey, None)
        &&& self.store_view() == pre.store_view().insert(
            commit_key_of(commit.cid()),
            commit_bytes(commit),
        ).remove(record_key_of(path)).insert(head_key(), vstd::utf8::encode_utf8(commit.cid()))
    }

    /// A repository of the owner over the given capabilities, with no head
    /// and no records until `load` reads what the store holds.
    pub fn new(did: Did, store: S, clock: Cl, crypto: Cr) -> (repo: Self)
        ensures
            repo.wf(),
            repo.did_view() == did@,
            repo.head_view() is None,
            repo.chain_base() is None,
            repo.chain() == Seq::<CommitView>::empty(),
            repo.entries() == Seq::<RecordView>::empty(),
            repo.materialized() == Map::<Seq<char>, RecordView>::empty(),
            repo.store_view() == store.contents(),
            repo.owner_key() == crypto.public_key_bytes(),
            repo.owner_keypair() == crypto.exported_keypair(),
            repo.dependable() == (store.dependable() && crypto.dependable()),
    {
        let repo = Repository {
            did,
            store,
            clock,
            crypto,
            head: None,
            records: Vec::new(),
            log: Ghost(Seq::empty()),
            base: Ghost(None),
        };
        proof {
            lemma_paired_empty(record_paths(repo.records@), record_views(repo.records@));
            assert(repo.entries() =~= Seq::<RecordView>::empty());
        }
        repo
    }

    /// The owner of the repository.
    pub fn did(&self) -> (did: &Did)
        ensures
            did@ == self.did_view(),
    {
        &self.did
    }

    /// The CID of the latest commit, if there is one.
    pub fn head(&self) -> (head: Option<Cid>)
        ensures
            cid_view(head) == self.head_view(),
    {
        clone_cid(&self.head)
    }

    /// The place of the record of a path among the records, if there is one.
    fn find(&self, path: &str) -> (r: Option<usize>)
        requires
            self.wf(),
        ensures
            match r {
                Some(i) => {
                    &&& i < self.records@.len()
                    &&& self.records@[i as int]@.path() == path@
                    &&& self.materialized().contains_key(path@)
                    &&& self.materialized()[path@] == self.records@[i as int]@
                },
                None => !self.materialized().contains_key(path@),
            },
    {
        let mut i: usize = 0;
        while i < self.records.len()
            invariant
                distinct_paths(self.records@),
                i <= self.records@.len(),
                forall|j: int| 0 <= j < i ==> (#[trigger] self.records@[j])@.path() != path@,
            decreases self.records@.len() - i,
        {
            let p = self.records[i].path();
            if same_text(p.as_str(), path) {
                proof {
                    lemma_index_found(self.records@, i as int);
                }
                return Some(i);
            }
            i += 1;
        }
        proof {
            lemma_index_absent(self.records@, path@);
        }
        None
    }

    /// The record at the path of a collection and a key, if there is one.
    pub fn get_record(&self, collection: &Nsid, rkey: &RecordKey) -> (r: Option<&Record>)
        requires
            self.wf(),
        ensures
            match self.found(collection@, rkey@) {
                Some(record) => r matches Some(x) && x@ == record,
                None => r is None,
            },
    {
        let path = path_of(collection, rkey);
        match self.find(path.as_str()) {
            Some(i) => Some(&self.records[i]),
            None => None,
        }
    }

    /// The records of a collection, in the order in which their paths came
    /// to be.
    pub fn list_records(&self, collection: &Nsid) -> (r: Vec<&Record>)
        ensures
            r@.map_values(|x: &Record| x@) == self.entries().filter(
                |x: RecordView| x.collection == collection@,
            ),
            r@.len() <= self.entries().len(),
    {
        let mut out: Vec<&Record> = Vec::new();
        let ghost wanted = |x: RecordView| x.collection == collection@;
        let mut i: usize = 0;
        assert(self.entries().take(0) =~= Seq::<RecordView>::empty());
        while i < self.records.len()
            invariant
                i <= self.records@.len(),
                wanted == |x: RecordView| x.collection == collection@,
                out@.map_values(|x: &Record| x@) == self.entries().take(i as int).filter(wanted),
            decreases self.records@.len() - i,
        {
            let ghost before = out@.map_values(|x: &Record| x@);
            let keep = same_text(self.records[i].collection.as_str(), collection.as_str());
            if keep {
                out.push(&self.records[i]);
            }
            proof {
                let all = self.entries();
                let head = all.take(i as int);
                let next = all.take(i as int + 1);
                assert(next.drop_last() =~= head);
                assert(next.last() == all[i as int]);
                assert(all[i as int] == self.records@[i as int]@);
                reveal(Seq::filter);
                if keep {
                    assert(out@.map_values(|x: &Record| x@) =~= before.push(all[i as int]));
                }
                assert(out@.map_values(|x: &Record| x@) =~= next.filter(wanted));
            }
            i += 1;
        }
        assert(self.entries().take(i as int) =~= self.entries());
        proof {
            self.entries().lemma_filter_len(wanted);
            assert(out@.map_values(|x: &Record| x@).len() == out@.len());
        }
        out
    }

    /// Whether the owner's key accepts the signature that the commit carries.
    #[verifier::spinoff_prover]
    pub fn verify_commit(&self, commit: &Commit) -> (r: Result<bool, Error>)
        ensures
            commit@.signature is None ==> (r matches Err(e) && e is InvalidCommit),
            r matches Ok(b) ==> b == self.signed_by_owner(commit@),
            self.signed_by_owner(commit@) ==> r == Ok::<bool, Error>(true),
    {
        let signature = match &commit.signature {
            Some(s) => s,
            None => {
                return Err(Error::InvalidCommit("Commit has no signature".to_owned()));
            },
        };
        let payload = match commit.signing_bytes() {
            Ok(bytes) => bytes,
            Err(e) => {
                return Err(e);
            },
        };
        let key = self.crypto.public_key();
        self.crypto.verify(payload.as_slice(), signature.as_slice(), key.as_slice())
    }

    /// A commit for the given change on top of the head, signed by the
    /// owner, with its CID.
    fn signed_commit(
        &self,
        operation: CommitOp,
        collection: &Nsid,
        rkey: &RecordKey,
        record_cid: Option<Cid>,
    ) -> (r: Result<(Commit, Cid), Error>)
        ensures
            match r {
                Ok((commit, cid)) => {
                    &&& commit@.did == self.did_view()
                    &&& commit@.operation == operation
                    &&& commit@.collection == collection@
                    &&& commit@.rkey == rkey@
                    &&& commit@.record_cid == cid_view(record_cid)
                    &&& commit@.prev == self.head_view()
                    &&& self.signed_by_owner(commit@)
                    &&& cid@ == commit@.cid()
                },
                Err(_) => true,
            },
            self.crypto.dependable() ==> r is Ok,
    {
        let mut commit = Commit::new(
            self.did.clone(),
            operation,
            collection.clone(),
            rkey.clone(),
            record_cid,
            clone_cid(&self.head),
        );
        let payload = match commit.signing_bytes() {
            Ok(bytes) => bytes,
            Err(e) => {
                return Err(e);
            },
        };
        let signature = match self.crypto.sign(payload.as_slice()) {
            Ok(s) => s,
            Err(e) => {
                return Err(e);
            },
        };
        let cid = Cid::from_bytes(payload.as_slice());
        let ghost unsigned = commit@;
        commit.signature = Some(signature);
        assert(commit@.signing_object() == unsigned.signing_object());
        Ok((commit, cid))
    }

    /// Creates a record at a path that has none: validates the value,
    /// derives its CID, appends a signed `Create` commit, stores the record,
    /// then the commit, then the head, and returns the record's CID.
    /// A value that is no object, and a path that has a record, are refused
    /// with `ValidationError` and nothing changes. Any other failure is one
    /// of the store or of the signing identity; the records, the head and
    /// the chain are then as before.
    #[verifier::spinoff_prover]
    pub fn create_record(&mut self, collection: Nsid, rkey: RecordKey, value: serde_json::Value) -> (r:
        Result<Cid, Error>)
        requires
            old(self).wf(),
        ensures
            final(self).wf(),
            final(self).same_identity(old(self)),
            match r {
                Ok(cid) => final(self).created(
                    old(self),
                    collection@,
                    rkey@,
                    json_model(value),
                    cid@,
                ),
                Err(_) => final(self).same_state(old(self)),
            },
            !(json_model(value) is Object) || old(self).materialized().contains_key(
                record_path(collection@, rkey@),
            ) ==> (r matches Err(e) && e is ValidationError) && final(self).store_view() == old(
                self,
            ).store_view(),
            old(self).dependable() && json_model(value) is Object && !old(
                self,
            ).materialized().contains_key(record_path(collection@, rkey@)) ==> r is Ok,
    {
        let record = Record::new(collection, rkey, value);
        match record.validate() {
            Ok(_) => {},
            Err(e) => {
                return Err(e);
            },
        }
        let cid = match record.cid() {
            Ok(c) => c,
            Err(e) => {
                return Err(e);
            },
        };
        let path = record.path();
        if self.find(path.as_str()).is_some() {
            return Err(Error::ValidationError(concat("Record already exists: ", path.as_str())));
        }
        let (commit, commit_cid) = match self.signed_commit(
            CommitOp::Create,
            &record.collection,
            &record.rkey,
            Some(cid.clone()),
        ) {
            Ok(pair) => pair,
            Err(e) => {
                return Err(e);
            },
        };
        match put_record(&mut self.store, &record) {
            Ok(_) => {},
            Err(e) => {
                return Err(e);
            },
        }
        match put_commit(&mut self.store, &commit, &commit_cid) {
            Ok(_) => {},
            Err(e) => {
                return Err(e);
            },
        }
        match put_head(&mut self.store, &commit_cid) {
            Ok(_) => {},
            Err(e) => {
                return Err(e);
            },
        }
        proof {
            lemma_index_push(self.records@, record);
        }
        self.head = Some(commit_cid);
        self.records.push(record);
        self.log = Ghost(self.log@.push(commit@));
        Ok(cid)
    }

    /// Gives the record at a path a new value: appends a signed `Update`
    /// commit, stores the record, then the commit, then the head, and
    /// returns the CID of the new value. A path without a record is refused
    /// with `NotFound`, a value that is no object with `ValidationError`; in
    /// both cases nothing changes.
    #[verifier::spinoff_prover]
    pub fn update_record(&mut self, collection: Nsid, rkey: RecordKey, value: serde_json::Value) -> (r:
        Result<Cid, Error>)
        requires
            old(self).wf(),
        ensures
            final(self).wf(),
            final(self).same_identity(old(self)),
            match r {
                Ok(cid) => final(self).updated(
                    old(self),
                    collection@,
                    rkey@,
                    json_model(value),
                    cid@,
                ),
                Err(_) => final(self).same_state(old(self)),
            },
            !old(self).materialized().contains_key(record_path(collection@, rkey@)) ==> (
            r matches Err(e) && e is NotFound) && final(self).store_view() == old(self).store_view(),
            old(self).materialized().contains_key(record_path(collection@, rkey@)) && !(json_model(
                value,
            ) is Object) ==> (r matches Err(e) && e is ValidationError) && final(self).store_view()
                == old(self).store_view(),
            old(self).dependable() && json_model(value) is Object && old(
                self,
            ).materialized().contains_key(record_path(collection@, rkey@)) ==> r is Ok,
    {
        let record = Record::new(collection, rkey, value);
        let path = record.path();
        let i = match self.find(path.as_str()) {
            Some(i) => i,
            None => {
                return Err(Error::NotFound(concat("Record not found: ", path.as_str())));
            },
        };
        match record.validate() {
            Ok(_) => {},
            Err(e) => {
                return Err(e);
            },
        }
        let cid = match record.cid() {
            Ok(c) => c,
            Err(e) => {
                return Err(e);
            },
        };
        let (commit, commit_cid) = match self.signed_commit(
            CommitOp::Update,
            &record.collection,
            &record.rkey,
            Some(cid.clone()),
        ) {
            Ok(pair) => pair,
            Err(e) => {
                return Err(e);
            },
        };
        match put_record(&mut self.store, &record) {
            Ok(_) => {},
            Err(e) => {
                return Err(e);
            },
        }
        match put_commit(&mut self.store, &commit, &commit_cid) {
            Ok(_) => {},
            Err(e) => {
                return Err(e);
            },
        }
        match put_head(&mut self.store, &commit_cid) {
            Ok(_) => {},
            Err(e) => {
                return Err(e);
            },
        }
        proof {
            lemma_index_update(self.records@, i as int, record);
        }
        self.head = Some(commit_cid);
        self.records.set(i, record);
        self.log = Ghost(self.log@.push(commit@));
        Ok(cid)
    }

    /// Deletes the record at a path: appends a signed `Delete` commit,
    /// stores the commit, removes the stored record, then stores the head.
    /// A path without a record is refused with `NotFound` and nothing
    /// changes.
    #[verifier::spinoff_prover]
    pub fn delete_record(&mut self, collection: Nsid, rkey: RecordKey) -> (r: Result<(), Error>)
        requires
            old(self).wf(),
        ensures
            final(self).wf(),
            final(self).same_identity(old(self)),
            match r {
                Ok(_) => final(self).deleted(old(self), collection@, rkey@),
                Err(_) => final(self).same_state(old(self)),
            },
            !old(self).materialized().contains_key(record_path(collection@, rkey@)) ==> (
            r matches Err(e) && e is NotFound) && final(self).store_view() == old(self).store_view(),
            old(self).dependable() && old(self).materialized().contains_key(
                record_path(collection@, rkey@),
            ) ==> r is Ok,
    {
        let path = path_of(&collection, &rkey);
        let i = match self.find(path.as_str()) {
            Some(i) => i,
            None => {
                return Err(Error::NotFound(concat("Record not found: ", path.as_str())));
            },
        };
        let (commit, commit_cid) = match self.signed_commit(
            CommitOp::Delete,
            &collection,
            &rkey,
            None,
        ) {
            Ok(pair) => pair,
            Err(e) => {
                return Err(e);
            },
        };
        match put_commit(&mut self.store, &commit, &commit_cid) {
            Ok(_) => {},
            Err(e) => {
                return Err(e);
            },
        }
        let key = record_key(collection.as_str(), rkey.as_str());
        match self.store.delete(key.as_str()) {
            Ok(_) => {},
            Err(e) => {
                return Err(e);
            },
        }
        match put_head(&mut self.store, &commit_cid) {
            Ok(_) => {},
            Err(e) => {
                return Err(e);
            },
        }
        proof {
            lemma_index_remove(self.records@, i as int);
        }
        self.head = Some(commit_cid);
        self.records.remove(i);
        self.log = Ghost(self.log@.push(commit@));
        Ok(())
    }

    /// Whether `self` is `pre` after it read its head and its records from the
    /// store: the chain begins anew on the stored head.
    pub open spec fn loaded(&self, pre: &Self) -> bool {
        &&& stored_head(pre.store_view()) == Some(self.head_view())
        &&& self.chain_base() == self.head_view()
        &&& self.chain() == Seq::<CommitView>::empty()
        &&& exists|keys: Seq<String>, records: Seq<RecordView>| #[trigger]
            records_listed(pre.store_view(), keys, records) && self.materialized() == by_path(
                records,
            )
    }

    /// Whether `commits` are the stored commits in the order of their times.
    pub open spec fn is_history(&self, commits: Seq<CommitView>) -> bool {
        exists|keys: Seq<String>, listed: Seq<CommitView>| #[trigger]
            commits_listed(self.store_view(), keys, listed) && commits == sort_by_time(listed)
    }

    /// Whether `records` are the stored records in the order of some listing.
    pub open spec fn is_export(&self, records: Seq<RecordView>) -> bool {
        exists|keys: Seq<String>| #[trigger] records_listed(self.store_view(), keys, records)
    }

    /// Reads the head and every record from the store and makes them the
    /// state of the repository. A stored head that is no CID is refused with
    /// `StorageError`, stored bytes that are no record with
    /// `SerializationError`; nothing changes then. An empty store loads as
    /// an empty repository.
    #[verifier::spinoff_prover]
    pub fn load(&mut self) -> (r: Result<(), Error>)
        requires
            old(self).wf(),
        ensures
            final(self).wf(),
            final(self).did_view() == old(self).did_view(),
            final(self).owner_key() == old(self).owner_key(),
            final(self).owner_keypair() == old(self).owner_keypair(),
            final(self).dependable() == old(self).dependable(),
            final(self).store_view() == old(self).store_view(),
            match r {
                Ok(_) => final(self).loaded(old(self)),
                Err(e) => final(self).same_state(old(self)) && final(self).chain_base() == old(
                    self,
                ).chain_base() && (old(self).dependable() ==> (if stored_head(
                    old(self).store_view(),
                ) is None {
                    e is StorageError
                } else {
                    e is SerializationError && !records_readable(old(self).store_view())
                })),
            },
            old(self).dependable() && stored_head(old(self).store_view()) is Some
                && records_readable(old(self).store_view()) ==> r is Ok,
    {
        let head = match read_head(&self.store) {
            Ok(head) => head,
            Err(e) => {
                return Err(e);
            },
        };
        let listed = match read_records(&self.store) {
            Ok(listed) => listed,
            Err(e) => {
                return Err(e);
            },
        };
        let ghost keys = choose|keys: Seq<String>| #[trigger]
            records_listed(self.store.contents(), keys, record_views(listed@));
        let ghost views = record_views(listed@);
        let records = latest_by_path(listed);
        self.head = head;
        self.records = records;
        self.log = Ghost(Seq::empty());
        self.base = Ghost(cid_view(self.head));
        proof {
            assert(records_listed(old(self).store_view(), keys, views));
        }
        Ok(())
    }

    /// Every stored commit, in the order of their times.
    pub fn get_commits(&self) -> (r: Result<Vec<Commit>, Error>)
        ensures
            match r {
                Ok(commits) => self.is_history(commit_views(commits@)),
                Err(e) => self.dependable() ==> e is SerializationError && !commits_readable(
                    self.store_view(),
                ),
            },
            self.dependable() && commits_readable(self.store_view()) ==> r is Ok,
    {
        let listed = match read_commits(&self.store) {
            Ok(listed) => listed,
            Err(e) => {
                return Err(e);
            },
        };
        let sorted = sort_commits(&listed);
        proof {
            let keys = choose|keys: Seq<String>| #[trigger]
                commits_listed(self.store.contents(), keys, commit_views(listed@));
            assert(commits_listed(self.store_view(), keys, commit_views(listed@)));
        }
        Ok(sorted)
    }

    /// The history that the head leads to: the stored commits on the way
    /// from the head back to the first commit, newest first. Each commit is
    /// read under the key of the CID that names it and has to have that CID.
    /// At most `limit` commits are followed. A commit that is missing or
    /// has another CID, and a history longer than `limit`, are refused with
    /// `RepositoryError`, stored bytes that are no commit with
    /// `SerializationError`.
    #[verifier::spinoff_prover]
    pub fn get_history(&self, limit: usize) -> (r: Result<Vec<Commit>, Error>)
        ensures
            match r {
                Ok(commits) => walk(self.store_view(), self.head_view(), limit as nat) == Some(
                    commit_views(commits@),
                ),
                Err(e) => self.dependable() ==> walk(
                    self.store_view(),
                    self.head_view(),
                    limit as nat,
                ) is None && (e is RepositoryError || e is SerializationError),
            },
            self.dependable() && walk(self.store_view(), self.head_view(), limit as nat) is Some
                ==> r is Ok,
    {
        follow(&self.store, clone_cid(&self.head), limit)
    }

    /// Every stored record, for publishing elsewhere.
    #[verifier::spinoff_prover]
    pub fn export_for_publish(&self) -> (r: Result<Vec<Record>, Error>)
        ensures
            match r {
                Ok(records) => self.is_export(record_views(records@)),
                Err(e) => self.dependable() ==> e is SerializationError && !records_readable(
                    self.store_view(),
                ),
            },
            self.dependable() && records_readable(self.store_view()) ==> r is Ok,
    {
        match read_records(&self.store) {
            Ok(records) => {
                proof {
                    let keys = choose|keys: Seq<String>| #[trigger]
                        records_listed(self.store.contents(), keys, record_views(records@));
                    assert(records_listed(self.store_view(), keys, record_views(records@)));
                }
                Ok(records)
            },
            Err(e) => Err(e),
        }
    }

    /// Whether the signing identity takes the key material.
    pub closed spec fn takes_keypair(&self, data: Seq<u8>) -> bool {
        self.crypto.accepts_keypair(data)
    }

    /// The head after a restore: the CID of the last commit of the backup.
    pub open spec fn restored_head(commits: Seq<CommitView>) -> Option<Seq<char>> {
        if commits.len() == 0 {
            None
        } else {
            Some(commits.last().cid())
        }
    }

    /// What the store holds after a restore: the commits and the records of
    /// the backup and the head, and nothing else.
    pub open spec fn restored_store(b: BackupView) -> Map<Seq<char>, Seq<u8>> {
        let written = with_records(with_commits(Map::empty(), b.commits), b.records);
        match Self::restored_head(b.commits) {
            Some(head) => written.insert(head_key(), vstd::utf8::encode_utf8(head)),
            None => written,
        }
    }

    /// Whether `self` is what a restore of the backup leaves: the owner, the
    /// records and the head of the backup, a chain that begins anew on that
    /// head, and a store that holds the backup alone.
    pub open spec fn restored(&self, b: BackupView) -> bool {
        &&& self.did_view() == b.did
        &&& self.materialized() == by_path(b.records)
        &&& self.head_view() == Self::restored_head(b.commits)
        &&& self.chain() == Seq::<CommitView>::empty()
        &&& self.chain_base() == self.head_view()
        &&& self.store_view() == Self::restored_store(b)
    }

    /// Everything that restores the repository elsewhere: the owner, the key
    /// material, the stored commits in the order of their times, and the
    /// stored records.
    #[verifier::spinoff_prover]
    pub fn backup(&self) -> (r: Result<Backup, Error>)
        ensures
            match r {
                Ok(b) => {
                    &&& b@.did == self.did_view()
                    &&& b@.keypair == self.owner_keypair()
                    &&& b@.version == "1.0"@
                    &&& self.is_history(b@.commits)
                    &&& self.is_export(b@.records)
                },
                Err(_) => !(self.dependable() && commits_readable(self.store_view())
                    && records_readable(self.store_view())),
            },
    {
        let keypair = match self.crypto.export_keypair() {
            Ok(keypair) => keypair,
            Err(e) => {
                return Err(e);
            },
        };
        let commits = match self.get_commits() {
            Ok(commits) => commits,
            Err(e) => {
                return Err(e);
            },
        };
        let records = match self.export_for_publish() {
            Ok(records) => records,
            Err(e) => {
                return Err(e);
            },
        };
        Ok(
            Backup {
                version: "1.0".to_owned(),
                did: self.did.clone(),
                keypair,
                commits,
                records,
                timestamp: self.clock.now(),
            },
        )
    }

    /// Replaces the repository by the one of the backup: empties the store,
    /// takes over the key material and the owner, writes the commits and
    /// the records of the backup as they are, and makes the last commit the
    /// head. Neither signatures nor the links between the commits are
    /// checked. Where a step fails, the records, the head and the owner in
    /// memory are as before, and the chain of this instance begins anew.
    #[verifier::spinoff_prover]
    pub fn restore(&mut self, backup: Backup) -> (r: Result<(), Error>)
        requires
            old(self).wf(),
        ensures
            final(self).wf(),
            final(self).dependable() == old(self).dependable(),
            match r {
                Ok(_) => final(self).restored(backup@),
                Err(_) => {
                    &&& final(self).did_view() == old(self).did_view()
                    &&& final(self).entries() == old(self).entries()
                    &&& final(self).materialized() == old(self).materialized()
                    &&& final(self).head_view() == old(self).head_view()
                    &&& final(self).chain() == Seq::<CommitView>::empty()
                    &&& final(self).chain_base() == final(self).head_view()
                },
            },
            old(self).dependable() ==> (r is Ok <==> old(self).takes_keypair(backup@.keypair)),
    {
        self.log = Ghost(Seq::empty());
        self.base = Ghost(cid_view(self.head));
        match clear_store(&mut self.store) {
            Ok(_) => {},
            Err(e) => {
                return Err(e);
            },
        }
        match self.crypto.import_keypair(backup.keypair.as_slice()) {
            Ok(_) => {},
            Err(e) => {
                return Err(e);
            },
        }
        match write_commits(&mut self.store, &backup.commits) {
            Ok(_) => {},
            Err(e) => {
                return Err(e);
            },
        }
        match write_records(&mut self.store, &backup.records) {
            Ok(_) => {},
            Err(e) => {
                return Err(e);
            },
        }
        let head = if backup.commits.len() == 0 {
            None
        } else {
            let last = &backup.commits[backup.commits.len() - 1];
            let cid = match last.cid() {
                Ok(cid) => cid,
                Err(e) => {
                    return Err(e);
                },
            };
            match put_head(&mut self.store, &cid) {
                Ok(_) => {},
                Err(e) => {
                    return Err(e);
                },
            }
            assert(commit_views(backup.commits@).last() == last@);
            Some(cid)
        };
        let records = latest_by_path(backup.records);
        self.did = backup.did;
        self.head = head;
        self.records = records;
        self.base = Ghost(cid_view(self.head));
        Ok(())
    }

    /// Create, then get: after a record was created, looking up its
    /// collection and key finds a record that holds the value given, and
    /// the CID of that record is the CID that the creation returned.
    pub proof fn lemma_created_is_found(
        &self,
        pre: &Self,
        collection: Seq<char>,
        rkey: Seq<char>,
        value: JsonView,
        cid: Seq<char>,
    )
        requires
            self.created(pre, collection, rkey, value, cid),
        ensures
            self.found(collection, rkey) matches Some(record) && record.value == value
                && record.cid() == cid,
    {
    }

    /// Update, then get: after a record was given a new value, looking it up
    /// finds that value.
    pub proof fn lemma_updated_is_found(
        &self,
        pre: &Self,
        collection: Seq<char>,
        rkey: Seq<char>,
        value: JsonView,
        cid: Seq<char>,
    )
        requires
            self.updated(pre, collection, rkey, value, cid),
        ensures
            self.found(collection, rkey) matches Some(record) && record.value == value
                && record.cid() == cid,
    {
    }

    /// Delete, then get: after a record was deleted, looking it up finds
    /// nothing.
    pub proof fn lemma_deleted_is_gone(&self, pre: &Self, collection: Seq<char>, rkey: Seq<char>)
        requires
            self.deleted(pre, collection, rkey),
        ensures
            self.found(collection, rkey) is None,
    {
    }

    /// Delete, then list: after a record was deleted, no record with its
    /// path is among the records, there is one record less, and the others
    /// are as they were.
    #[verifier::spinoff_prover]
    pub proof fn lemma_deleted_is_unlisted(
        &self,
        pre: &Self,
        collection: Seq<char>,
        rkey: Seq<char>,
    )
        requires
            pre.wf(),
            self.deleted(pre, collection, rkey),
        ensures
            self.entries().len() == pre.entries().len() - 1,
            !entry_paths(self.entries()).contains(record_path(collection, rkey)),
            forall|i: int|
                0 <= i < self.entries().len() ==> pre.entries().contains(
                    #[trigger] self.entries()[i],
                ),
    {
        lemma_paths_of_views(pre.records@);
        lemma_entries_without(pre.entries(), record_path(collection, rkey));
    }

    /// Update, then list: after a record was given a new value, the records
    /// are as many as before and in the same order, with the new record at
    /// the place of the old and no other record changed.
    #[verifier::spinoff_prover]
    pub proof fn lemma_updated_in_place(
        &self,
        pre: &Self,
        collection: Seq<char>,
        rkey: Seq<char>,
        value: JsonView,
        cid: Seq<char>,
    )
        requires
            pre.wf(),
            self.updated(pre, collection, rkey, value, cid),
        ensures
            self.entries().len() == pre.entries().len(),
            forall|i: int|
                0 <= i < self.entries().len() ==> (#[trigger] self.entries()[i]).path()
                    == pre.entries()[i].path(),
            forall|i: int|
                0 <= i < self.entries().len() && pre.entries()[i].path() != record_path(
                    collection,
                    rkey,
                ) ==> #[trigger] self.entries()[i] == pre.entries()[i],
    {
        lemma_paths_of_views(pre.records@);
        lemma_entries_replaced(pre.entries(), self.materialized()[record_path(collection, rkey)]);
    }

    /// The links of the chain: the first commit that this instance appended
    /// names the head on which the instance began, and every later commit
    /// names the CID of the commit before it. In a repository that began
    /// without a head, the first commit, and no other, names no
    /// predecessor. The head is the CID of the last commit.
    pub proof fn lemma_chain_links(&self, n: int)
        requires
            self.wf(),
            0 <= n < self.chain().len(),
        ensures
            n == 0 ==> self.chain()[n].prev == self.chain_base(),
            n > 0 ==> self.chain()[n].prev == Some(self.chain()[n - 1].cid()),
            self.chain_base() is None ==> (self.chain()[n].prev is None <==> n == 0),
            self.head_view() == Some(self.chain().last().cid()),
    {
        assert(self.log@[n].prev == (if n == 0 {
            self.base@
        } else {
            Some(self.log@[n - 1].cid())
        }));
    }

    /// Every commit that this instance has appended names the owner, names
    /// a record CID where it creates or updates, and carries a signature
    /// that the owner's key accepts: `verify_commit` says `true` of it.
    pub proof fn lemma_chain_verifies(&self, n: int)
        requires
            self.wf(),
            0 <= n < self.chain().len(),
        ensures
            self.chain()[n].did == self.did_view(),
            self.chain()[n].is_valid(),
            self.signed_by_owner(self.chain()[n]),
    {
        assert(self.signed_by_owner(self.log@[n]));
    }
}

} // verus!
