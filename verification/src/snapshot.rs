//! Exports of a repository as JSON: the full snapshot, the commit log, a
//! single record, and the backup that also carries the key material.

use vstd::prelude::*;
use vstd::string::*;

use crate::codec::{
    all_commits_storable, all_records_storable, bytes_from_json, bytes_json, bytes_of,
    bytes_to_json, commits_field, commits_from_field, commits_json, commits_to_json,
    lemma_bytes_round_trip, lemma_commits_round_trip, lemma_record_round_trip,
    lemma_records_round_trip, malformed, record_json, record_of_json, records_field, records_from_field,
    records_json, records_to_json, text_field, text_from_field, time_field, time_from_field,
};
use crate::error::Error;
use crate::json::{
    json_empty_object, json_from_slice, json_from_str, json_get, json_model, json_parse,
    json_pretty_text, json_set_field, json_string, json_to_string_pretty, json_to_vec_pretty,
    pretty_text_reads_back, JsonView,
};
use crate::repo::Repository;
use crate::time::{is_stamp, TimeView, Timestamp};
use crate::traits::{Clock, Crypto, KvStore};
use crate::types::{
    clone_commits, clone_records, commit_views, did_prefix, record_views, Commit, CommitView, Did,
    Record, RecordView,
};

verus! {

/// A full export of a repository.
#[derive(Debug)]
pub struct Snapshot {
    /// The owner of the repository.
    pub did: String,
    /// The records of the repository.
    pub records: Vec<Record>,
    /// The commits of the repository, in the order of their times.
    pub commits: Vec<Commit>,
    /// When the export was made, as RFC 3339 text.
    pub exported_at: String,
    /// The version of the format.
    pub version: String,
}

/// What a snapshot holds.
pub struct SnapshotView {
    pub did: Seq<char>,
    pub records: Seq<RecordView>,
    pub commits: Seq<CommitView>,
    pub exported_at: Seq<char>,
    pub version: Seq<char>,
}

impl View for Snapshot {
    type V = SnapshotView;

    open spec fn view(&self) -> SnapshotView {
        SnapshotView {
            did: self.did@,
            records: record_views(self.records@),
            commits: commit_views(self.commits@),
            exported_at: self.exported_at@,
            version: self.version@,
        }
    }
}

/// The export of one record with its CID.
#[derive(Debug)]
pub struct RecordSnapshot {
    /// The record.
    pub record: Record,
    /// The text of the record's CID.
    pub cid: String,
    /// When the export was made, as RFC 3339 text.
    pub exported_at: String,
}

/// What a record snapshot holds.
pub struct RecordSnapshotView {
    pub record: RecordView,
    pub cid: Seq<char>,
    pub exported_at: Seq<char>,
}

impl View for RecordSnapshot {
    type V = RecordSnapshotView;

    open spec fn view(&self) -> RecordSnapshotView {
        RecordSnapshotView { record: self.record@, cid: self.cid@, exported_at: self.exported_at@ }
    }
}

/// The export of the commits of a repository.
#[derive(Debug)]
pub struct CommitLog {
    /// The commits, in the order of their times.
    pub commits: Vec<Commit>,
    /// The owner of the repository.
    pub did: String,
    /// When the export was made, as RFC 3339 text.
    pub exported_at: String,
}

/// What a commit log holds.
pub struct CommitLogView {
    pub commits: Seq<CommitView>,
    pub did: Seq<char>,
    pub exported_at: Seq<char>,
}

impl View for CommitLog {
    type V = CommitLogView;

    open spec fn view(&self) -> CommitLogView {
        CommitLogView {
            commits: commit_views(self.commits@),
            did: self.did@,
            exported_at: self.exported_at@,
        }
    }
}

/// Everything that restores a repository elsewhere: its owner, the key
/// material of its signing identity, its commits and its records.
#[derive(Debug)]
pub struct Backup {
    /// The version of the format.
    pub version: String,
    /// The owner of the repository.
    pub did: Did,
    /// The key material, as the signing identity exported it.
    pub keypair: Vec<u8>,
    /// The commits, in the order of their times.
    pub commits: Vec<Commit>,
    /// The records.
    pub records: Vec<Record>,
    /// When the backup was made.
    pub timestamp: Timestamp,
}

/// What a backup holds.
pub struct BackupView {
    pub version: Seq<char>,
    pub did: Seq<char>,
    pub keypair: Seq<u8>,
    pub commits: Seq<CommitView>,
    pub records: Seq<RecordView>,
    pub timestamp: TimeView,
}

impl View for Backup {
    type V = BackupView;

    open spec fn view(&self) -> BackupView {
        BackupView {
            version: self.version@,
            did: self.did@,
            keypair: self.keypair@,
            commits: commit_views(self.commits@),
            records: record_views(self.records@),
            timestamp: self.timestamp@,
        }
    }
}

impl Clone for Snapshot {
    fn clone(&self) -> (c: Snapshot)
        ensures
            c@ == self@,
    {
        Snapshot {
            did: self.did.clone(),
            records: clone_records(&self.records),
            commits: clone_commits(&self.commits),
            exported_at: self.exported_at.clone(),
            version: self.version.clone(),
        }
    }
}

impl Clone for RecordSnapshot {
    fn clone(&self) -> (c: RecordSnapshot)
        ensures
            c@ == self@,
    {
        RecordSnapshot {
            record: self.record.clone(),
            cid: self.cid.clone(),
            exported_at: self.exported_at.clone(),
        }
    }
}

impl Clone for CommitLog {
    fn clone(&self) -> (c: CommitLog)
        ensures
            c@ == self@,
    {
        CommitLog {
            commits: clone_commits(&self.commits),
            did: self.did.clone(),
            exported_at: self.exported_at.clone(),
        }
    }
}

impl Clone for Backup {
    fn clone(&self) -> (c: Backup)
        ensures
            c@ == self@,
    {
        Backup {
            version: self.version.clone(),
            did: self.did.clone(),
            keypair: self.keypair.clone(),
            commits: clone_commits(&self.commits),
            records: clone_records(&self.records),
            timestamp: self.timestamp,
        }
    }
}

/// A snapshot as a JSON object.
pub open spec fn snapshot_json(s: SnapshotView) -> JsonView {
    JsonView::Object(
        Map::empty().insert("did"@, JsonView::String(s.did)).insert(
            "records"@,
            records_json(s.records),
        ).insert("commits"@, commits_json(s.commits)).insert(
            "exported_at"@,
            JsonView::String(s.exported_at),
        ).insert("version"@, JsonView::String(s.version)),
    )
}

/// The snapshot that a JSON value holds, if it holds one.
pub open spec fn snapshot_of_json(j: JsonView) -> Option<SnapshotView> {
    match (
        text_field(j, "did"@),
        records_field(j, "records"@),
        commits_field(j, "commits"@),
        text_field(j, "exported_at"@),
        text_field(j, "version"@),
    ) {
        (Some(did), Some(records), Some(commits), Some(exported_at), Some(version)) => Some(
            SnapshotView { did, records, commits, exported_at, version },
        ),
        _ => None,
    }
}

/// A record snapshot as a JSON object.
pub open spec fn record_snapshot_json(s: RecordSnapshotView) -> JsonView {
    JsonView::Object(
        Map::empty().insert("record"@, record_json(s.record)).insert(
            "cid"@,
            JsonView::String(s.cid),
        ).insert("exported_at"@, JsonView::String(s.exported_at)),
    )
}

/// The record in a field that holds a stored record.
pub open spec fn record_field(j: JsonView, key: Seq<char>) -> Option<RecordView> {
    match j.field(key) {
        Some(x) => record_of_json(x),
        None => None,
    }
}

/// The record snapshot that a JSON value holds, if it holds one.
pub open spec fn record_snapshot_of_json(j: JsonView) -> Option<RecordSnapshotView> {
    match (record_field(j, "record"@), text_field(j, "cid"@), text_field(j, "exported_at"@)) {
        (Some(record), Some(cid), Some(exported_at)) => Some(
            RecordSnapshotView { record, cid, exported_at },
        ),
        _ => None,
    }
}

/// A commit log as a JSON object.
pub open spec fn commit_log_json(s: CommitLogView) -> JsonView {
    JsonView::Object(
        Map::empty().insert("commits"@, commits_json(s.commits)).insert(
            "did"@,
            JsonView::String(s.did),
        ).insert("exported_at"@, JsonView::String(s.exported_at)),
    )
}

/// The commit log that a JSON value holds, if it holds one.
pub open spec fn commit_log_of_json(j: JsonView) -> Option<CommitLogView> {
    match (commits_field(j, "commits"@), text_field(j, "did"@), text_field(j, "exported_at"@)) {
        (Some(commits), Some(did), Some(exported_at)) => Some(
            CommitLogView { commits, did, exported_at },
        ),
        _ => None,
    }
}

/// A backup as a JSON object.
pub open spec fn backup_json(b: BackupView) -> JsonView {
    JsonView::Object(
        Map::empty().insert("version"@, JsonView::String(b.version)).insert(
            "did"@,
            JsonView::String(b.did),
        ).insert("keypair"@, bytes_json(b.keypair)).insert("commits"@, commits_json(b.commits)).insert(
            "records"@,
            records_json(b.records),
        ).insert("timestamp"@, JsonView::String(b.timestamp.stored_text())),
    )
}

/// The bytes in a field that holds an array of bytes.
pub open spec fn bytes_field(j: JsonView, key: Seq<char>) -> Option<Seq<u8>> {
    match j.field(key) {
        Some(JsonView::Array(items)) => bytes_of(items),
        _ => None,
    }
}

/// The backup that a JSON value holds, if it holds one.
pub open spec fn backup_of_json(j: JsonView) -> Option<BackupView> {
    match (
        text_field(j, "version"@),
        text_field(j, "did"@),
        bytes_field(j, "keypair"@),
        commits_field(j, "commits"@),
        records_field(j, "records"@),
        time_field(j, "timestamp"@),
    ) {
        (Some(version), Some(did), Some(keypair), Some(commits), Some(records), Some(timestamp)) => if did_prefix().is_prefix_of(
            did,
        ) {
            Some(BackupView { version, did, keypair, commits, records, timestamp })
        } else {
            None
        },
        _ => None,
    }
}

/// What a parser of one kind of export makes of a JSON text.
pub open spec fn parsed_as<T>(text: Seq<u8>, reader: spec_fn(JsonView) -> Option<T>) -> Option<T> {
    match json_parse(text) {
        Some(j) => reader(j),
        None => None,
    }
}

/// The indented JSON text of a value, as a string.
fn pretty_text(v: &serde_json::Value) -> (r: Result<String, Error>)
    ensures
        match r {
            Ok(text) => vstd::utf8::encode_utf8(text@) == json_pretty_text(json_model(*v)),
            Err(_) => false,
        },
{
    match json_to_string_pretty(v) {
        Ok(text) => Ok(text),
        Err(m) => Err(Error::SerializationError(m)),
    }
}

/// The indented JSON text of a value, as bytes.
fn pretty_bytes(v: &serde_json::Value) -> (r: Result<Vec<u8>, Error>)
    ensures
        match r {
            Ok(bytes) => bytes@ == json_pretty_text(json_model(*v)),
            Err(_) => false,
        },
{
    match json_to_vec_pretty(v) {
        Ok(bytes) => Ok(bytes),
        Err(m) => Err(Error::SerializationError(m)),
    }
}

impl Snapshot {
    /// The snapshot of a repository: its owner and its stored commits in the
    /// order of their times, stamped with the time that the system clock
    /// reads. The list of records is left empty.
    pub fn from_repo<S: KvStore, Cl: Clock, Cr: Crypto>(repo: &Repository<S, Cl, Cr>) -> (r: Result<
        Snapshot,
        Error,
    >)
        ensures
            match r {
                Ok(s) => {
                    &&& s@.did == repo.did_view()
                    &&& repo.is_history(s@.commits)
                    &&& s@.records == Seq::<RecordView>::empty()
                    &&& s@.version == "1.0.0"@
                    &&& is_stamp(s@.exported_at)
                },
                Err(_) => !(repo.dependable() && crate::storage::commits_readable(
                    repo.store_view(),
                )),
            },
    {
        let commits = match repo.get_commits() {
            Ok(commits) => commits,
            Err(e) => {
                return Err(e);
            },
        };
        let s = Snapshot {
            did: repo.did().as_str().to_owned(),
            records: Vec::new(),
            commits,
            exported_at: Timestamp::stamp(),
            version: "1.0.0".to_owned(),
        };
        assert(s@.records =~= Seq::<RecordView>::empty());
        Ok(s)
    }

    /// The snapshot as a JSON value.
    pub fn to_value(&self) -> (v: serde_json::Value)
        ensures
            json_model(v) == snapshot_json(self@),
    {
        let mut object = json_empty_object();
        json_set_field(&mut object, "did", json_string(self.did.as_str()));
        json_set_field(&mut object, "records", records_to_json(&self.records));
        json_set_field(&mut object, "commits", commits_to_json(&self.commits));
        json_set_field(&mut object, "exported_at", json_string(self.exported_at.as_str()));
        json_set_field(&mut object, "version", json_string(self.version.as_str()));
        object
    }

    /// Reads a snapshot from a JSON value.
    pub fn from_value(v: &serde_json::Value) -> (r: Result<Snapshot, Error>)
        ensures
            match snapshot_of_json(json_model(*v)) {
                Some(s) => r matches Ok(x) && x@ == s,
                None => r matches Err(e) && e is SerializationError,
            },
    {
        let did = text_from_field(v, "did");
        let records = records_from_field(v, "records");
        let commits = commits_from_field(v, "commits");
        let exported_at = text_from_field(v, "exported_at");
        let version = text_from_field(v, "version");
        match (did, records, commits, exported_at, version) {
            (Some(did), Some(records), Some(commits), Some(exported_at), Some(version)) => Ok(
                Snapshot { did, records, commits, exported_at, version },
            ),
            _ => Err(malformed("snapshot: missing or malformed field")),
        }
    }

    /// The snapshot as indented JSON text.
    pub fn to_json(&self) -> (r: Result<String, Error>)
        ensures
            match r {
                Ok(text) => vstd::utf8::encode_utf8(text@) == json_pretty_text(snapshot_json(self@)),
                Err(_) => false,
            },
    {
        pretty_text(&self.to_value())
    }

    /// The snapshot as the bytes of indented JSON text.
    pub fn to_json_bytes(&self) -> (r: Result<Vec<u8>, Error>)
        ensures
            match r {
                Ok(bytes) => bytes@ == json_pretty_text(snapshot_json(self@)),
                Err(_) => false,
            },
    {
        pretty_bytes(&self.to_value())
    }

    /// Reads a snapshot from JSON text. Text that is no JSON, and JSON that
    /// is no snapshot, are refused with `SerializationError`.
    pub fn from_json(json: &str) -> (r: Result<Snapshot, Error>)
        ensures
            match parsed_as(vstd::utf8::encode_utf8(json@), |j: JsonView| snapshot_of_json(j)) {
                Some(s) => r matches Ok(x) && x@ == s,
                None => r matches Err(e) && e is SerializationError,
            },
    {
        match json_from_str(json) {
            Ok(v) => Snapshot::from_value(&v),
            Err(m) => Err(Error::SerializationError(m)),
        }
    }

    /// Reads a snapshot from the bytes of JSON text.
    pub fn from_json_bytes(bytes: &[u8]) -> (r: Result<Snapshot, Error>)
        ensures
            match parsed_as(bytes@, |j: JsonView| snapshot_of_json(j)) {
                Some(s) => r matches Ok(x) && x@ == s,
                None => r matches Err(e) && e is SerializationError,
            },
    {
        match json_from_slice(bytes) {
            Ok(v) => Snapshot::from_value(&v),
            Err(m) => Err(Error::SerializationError(m)),
        }
    }
}

impl RecordSnapshot {
    /// The snapshot of a record: the record and the text of its CID,
    /// stamped with the time that the system clock reads.
    pub fn new(record: Record) -> (r: Result<RecordSnapshot, Error>)
        ensures
            match r {
                Ok(s) => s@.record == record@ && s@.cid == record@.cid() && is_stamp(
                    s@.exported_at,
                ),
                Err(_) => false,
            },
    {
        let cid = match record.cid() {
            Ok(cid) => cid,
            Err(e) => {
                return Err(e);
            },
        };
        Ok(
            RecordSnapshot {
                record,
                cid: cid.as_str().to_owned(),
                exported_at: Timestamp::stamp(),
            },
        )
    }

    /// The record snapshot as a JSON value.
    pub fn to_value(&self) -> (v: serde_json::Value)
        ensures
            json_model(v) == record_snapshot_json(self@),
    {
        let mut object = json_empty_object();
        json_set_field(&mut object, "record", self.record.to_json());
        json_set_field(&mut object, "cid", json_string(self.cid.as_str()));
        json_set_field(&mut object, "exported_at", json_string(self.exported_at.as_str()));
        object
    }

    /// Reads a record snapshot from a JSON value.
    pub fn from_value(v: &serde_json::Value) -> (r: Result<RecordSnapshot, Error>)
        ensures
            match record_snapshot_of_json(json_model(*v)) {
                Some(s) => r matches Ok(x) && x@ == s,
                None => r matches Err(e) && e is SerializationError,
            },
    {
        let record = match json_get(v, "record") {
            Some(x) => match Record::from_json(x) {
                Ok(record) => Some(record),
                Err(_) => None,
            },
            None => None,
        };
        let cid = text_from_field(v, "cid");
        let exported_at = text_from_field(v, "exported_at");
        match (record, cid, exported_at) {
            (Some(record), Some(cid), Some(exported_at)) => Ok(
                RecordSnapshot { record, cid, exported_at },
            ),
            _ => Err(malformed("record snapshot: missing or malformed field")),
        }
    }

    /// The record snapshot as indented JSON text.
    pub fn to_json(&self) -> (r: Result<String, Error>)
        ensures
            match r {
                Ok(text) => vstd::utf8::encode_utf8(text@) == json_pretty_text(
                    record_snapshot_json(self@),
                ),
                Err(_) => false,
            },
    {
        pretty_text(&self.to_value())
    }

    /// Reads a record snapshot from JSON text.
    pub fn from_json(json: &str) -> (r: Result<RecordSnapshot, Error>)
        ensures
            match parsed_as(
                vstd::utf8::encode_utf8(json@),
                |j: JsonView| record_snapshot_of_json(j),
            ) {
                Some(s) => r matches Ok(x) && x@ == s,
                None => r matches Err(e) && e is SerializationError,
            },
    {
        match json_from_str(json) {
            Ok(v) => RecordSnapshot::from_value(&v),
            Err(m) => Err(Error::SerializationError(m)),
        }
    }
}

impl CommitLog {
    /// The commit log of a repository: its owner and its stored commits in
    /// the order of their times, stamped with the time that the system
    /// clock reads.
    pub fn from_repo<S: KvStore, Cl: Clock, Cr: Crypto>(repo: &Repository<S, Cl, Cr>) -> (r: Result<
        CommitLog,
        Error,
    >)
        ensures
            match r {
                Ok(log) => log@.did == repo.did_view() && repo.is_history(log@.commits)
                    && is_stamp(log@.exported_at),
                Err(_) => !(repo.dependable() && crate::storage::commits_readable(
                    repo.store_view(),
                )),
            },
    {
        let commits = match repo.get_commits() {
            Ok(commits) => commits,
            Err(e) => {
                return Err(e);
            },
        };
        Ok(
            CommitLog {
                commits,
                did: repo.did().as_str().to_owned(),
                exported_at: Timestamp::stamp(),
            },
        )
    }

    /// The commit log as a JSON value.
    pub fn to_value(&self) -> (v: serde_json::Value)
        ensures
            json_model(v) == commit_log_json(self@),
    {
        let mut object = json_empty_object();
        json_set_field(&mut object, "commits", commits_to_json(&self.commits));
        json_set_field(&mut object, "did", json_string(self.did.as_str()));
        json_set_field(&mut object, "exported_at", json_string(self.exported_at.as_str()));
        object
    }

    /// Reads a commit log from a JSON value.
    pub fn from_value(v: &serde_json::Value) -> (r: Result<CommitLog, Error>)
        ensures
            match commit_log_of_json(json_model(*v)) {
                Some(log) => r matches Ok(x) && x@ == log,
                None => r matches Err(e) && e is SerializationError,
            },
    {
        let commits = commits_from_field(v, "commits");
        let did = text_from_field(v, "did");
        let exported_at = text_from_field(v, "exported_at");
        match (commits, did, exported_at) {
            (Some(commits), Some(did), Some(exported_at)) => Ok(
                CommitLog { commits, did, exported_at },
            ),
            _ => Err(malformed("commit log: missing or malformed field")),
        }
    }

    /// The commit log as indented JSON text.
    pub fn to_json(&self) -> (r: Result<String, Error>)
        ensures
            match r {
                Ok(text) => vstd::utf8::encode_utf8(text@) == json_pretty_text(
                    commit_log_json(self@),
                ),
                Err(_) => false,
            },
    {
        pretty_text(&self.to_value())
    }

    /// Reads a commit log from JSON text.
    pub fn from_json(json: &str) -> (r: Result<CommitLog, Error>)
        ensures
            match parsed_as(vstd::utf8::encode_utf8(json@), |j: JsonView| commit_log_of_json(j)) {
                Some(log) => r matches Ok(x) && x@ == log,
                None => r matches Err(e) && e is SerializationError,
            },
    {
        match json_from_str(json) {
            Ok(v) => CommitLog::from_value(&v),
            Err(m) => Err(Error::SerializationError(m)),
        }
    }
}

impl Backup {
    /// The backup as a JSON value.
    pub fn to_value(&self) -> (v: serde_json::Value)
        ensures
            json_model(v) == backup_json(self@),
    {
        let mut object = json_empty_object();
        json_set_field(&mut object, "version", json_string(self.version.as_str()));
        json_set_field(&mut object, "did", json_string(self.did.as_str()));
        json_set_field(&mut object, "keypair", bytes_to_json(self.keypair.as_slice()));
        json_set_field(&mut object, "commits", commits_to_json(&self.commits));
        json_set_field(&mut object, "records", records_to_json(&self.records));
        let time = self.timestamp.to_stored_text();
        json_set_field(&mut object, "timestamp", json_string(time.as_str()));
        object
    }

    /// Reads a backup from a JSON value.
    pub fn from_value(v: &serde_json::Value) -> (r: Result<Backup, Error>)
        ensures
            match backup_of_json(json_model(*v)) {
                Some(b) => r matches Ok(x) && x@ == b,
                None => r matches Err(e) && e is SerializationError,
            },
    {
        let version = text_from_field(v, "version");
        let did = text_from_field(v, "did");
        let keypair = match json_get(v, "keypair") {
            Some(x) => bytes_from_json(x),
            None => None,
        };
        let commits = commits_from_field(v, "commits");
        let records = records_from_field(v, "records");
        let timestamp = time_from_field(v, "timestamp");
        match (version, did, keypair, commits, records, timestamp) {
            (
                Some(version),
                Some(did),
                Some(keypair),
                Some(commits),
                Some(records),
                Some(timestamp),
            ) => {
                let did = match Did::new(did.as_str()) {
                    Ok(did) => did,
                    Err(_) => {
                        return Err(malformed("backup: invalid did"));
                    },
                };
                Ok(Backup { version, did, keypair, commits, records, timestamp })
            },
            _ => Err(malformed("backup: missing or malformed field")),
        }
    }

    /// The backup as indented JSON text.
    pub fn to_json(&self) -> (r: Result<String, Error>)
        ensures
            match r {
                Ok(text) => vstd::utf8::encode_utf8(text@) == json_pretty_text(backup_json(self@)),
                Err(_) => false,
            },
    {
        pretty_text(&self.to_value())
    }

    /// Reads a backup from JSON text.
    pub fn from_json(json: &str) -> (r: Result<Backup, Error>)
        ensures
            match parsed_as(vstd::utf8::encode_utf8(json@), |j: JsonView| backup_of_json(j)) {
                Some(b) => r matches Ok(x) && x@ == b,
                None => r matches Err(e) && e is SerializationError,
            },
    {
        match json_from_str(json) {
            Ok(v) => Backup::from_value(&v),
            Err(m) => Err(Error::SerializationError(m)),
        }
    }
}

/// A snapshot written as JSON and read back is the same snapshot: the same
/// owner, the same records, the same commits in the same order. This holds
/// of every snapshot whose records and commits are storable.
pub proof fn lemma_snapshot_round_trip(s: SnapshotView)
    requires
        all_records_storable(s.records),
        all_commits_storable(s.commits),
    ensures
        snapshot_of_json(snapshot_json(s)) == Some(s),
{
    reveal_strlit("did");
    reveal_strlit("records");
    reveal_strlit("commits");
    reveal_strlit("exported_at");
    reveal_strlit("version");
    assert("did"@.len() == 3 && "exported_at"@.len() == 11);
    assert("records"@.len() == 7 && "records"@[0] == 'r');
    assert("commits"@.len() == 7 && "commits"@[0] == 'c');
    assert("version"@.len() == 7 && "version"@[0] == 'v');
    lemma_records_round_trip(s.records);
    lemma_commits_round_trip(s.commits);
    let j = snapshot_json(s);
    assert(j.field("did"@) == Some(JsonView::String(s.did)));
    assert(j.field("records"@) == Some(records_json(s.records)));
    assert(j.field("commits"@) == Some(commits_json(s.commits)));
    assert(j.field("exported_at"@) == Some(JsonView::String(s.exported_at)));
    assert(j.field("version"@) == Some(JsonView::String(s.version)));
}

/// A snapshot written as text and read back is the same snapshot: `to_json`
/// and `to_json_bytes` write the text of which this speaks, and `from_json`
/// and `from_json_bytes` read it. This holds of every snapshot whose records
/// and commits are storable, where the text reads back as the JSON value
/// that was written.
pub proof fn lemma_snapshot_text_round_trip(s: SnapshotView)
    requires
        all_records_storable(s.records),
        all_commits_storable(s.commits),
        pretty_text_reads_back(snapshot_json(s)),
    ensures
        parsed_as(json_pretty_text(snapshot_json(s)), |j: JsonView| snapshot_of_json(j)) == Some(s),
{
    lemma_snapshot_round_trip(s);
}

/// A commit log written as JSON and read back is the same commit log, where
/// its commits are storable.
pub proof fn lemma_commit_log_round_trip(log: CommitLogView)
    requires
        all_commits_storable(log.commits),
    ensures
        commit_log_of_json(commit_log_json(log)) == Some(log),
{
    reveal_strlit("commits");
    reveal_strlit("did");
    reveal_strlit("exported_at");
    assert("commits"@.len() == 7 && "did"@.len() == 3 && "exported_at"@.len() == 11);
    lemma_commits_round_trip(log.commits);
    let j = commit_log_json(log);
    assert(j.field("commits"@) == Some(commits_json(log.commits)));
    assert(j.field("did"@) == Some(JsonView::String(log.did)));
    assert(j.field("exported_at"@) == Some(JsonView::String(log.exported_at)));
}

/// A record snapshot written as JSON and read back is the same record
/// snapshot, where its record is storable.
pub proof fn lemma_record_snapshot_round_trip(s: RecordSnapshotView)
    requires
        s.record.storable(),
    ensures
        record_snapshot_of_json(record_snapshot_json(s)) == Some(s),
{
    reveal_strlit("record");
    reveal_strlit("cid");
    reveal_strlit("exported_at");
    assert("record"@.len() == 6 && "cid"@.len() == 3 && "exported_at"@.len() == 11);
    lemma_record_round_trip(s.record);
    let j = record_snapshot_json(s);
    assert(j.field("record"@) == Some(record_json(s.record)));
    assert(j.field("cid"@) == Some(JsonView::String(s.cid)));
    assert(j.field("exported_at"@) == Some(JsonView::String(s.exported_at)));
}

/// A backup written as JSON and read back is the same backup, where its
/// owner is a DID, its records and commits are storable and the text of its
/// time reads back as that time.
pub proof fn lemma_backup_round_trip(b: BackupView)
    requires
        did_prefix().is_prefix_of(b.did),
        all_records_storable(b.records),
        all_commits_storable(b.commits),
        b.timestamp.reads_back(),
    ensures
        backup_of_json(backup_json(b)) == Some(b),
{
    reveal_strlit("version");
    reveal_strlit("did");
    reveal_strlit("keypair");
    reveal_strlit("commits");
    reveal_strlit("records");
    reveal_strlit("timestamp");
    assert("did"@.len() == 3 && "timestamp"@.len() == 9);
    assert("version"@.len() == 7 && "version"@[0] == 'v');
    assert("keypair"@.len() == 7 && "keypair"@[0] == 'k');
    assert("commits"@.len() == 7 && "commits"@[0] == 'c');
    assert("records"@.len() == 7 && "records"@[0] == 'r');
    lemma_records_round_trip(b.records);
    lemma_commits_round_trip(b.commits);
    lemma_bytes_round_trip(b.keypair);
    let j = backup_json(b);
    assert(j.field("version"@) == Some(JsonView::String(b.version)));
    assert(j.field("did"@) == Some(JsonView::String(b.did)));
    assert(j.field("keypair"@) == Some(bytes_json(b.keypair)));
    assert(j.field("commits"@) == Some(commits_json(b.commits)));
    assert(j.field("records"@) == Some(records_json(b.records)));
    assert(j.field("timestamp"@) == Some(JsonView::String(b.timestamp.stored_text())));
}

} // verus!
