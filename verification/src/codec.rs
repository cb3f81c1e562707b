//! The stored form of records and commits: JSON objects with fixed field
//! names, written and read as compact JSON text.

use vstd::prelude::*;
use vstd::string::*;

use crate::error::Error;
use crate::json::{
    json_array, json_as_array, json_as_str, json_as_u64, json_clone, json_empty_object,
    json_from_slice, json_from_u64, json_get, json_is_null, json_model, json_null, json_parse,
    json_set_field, json_string, json_text, json_to_vec, JsonView, NumberView,
};
use crate::text::same_text;
use crate::time::{read_time, Timestamp};
use crate::types::{
    cid_or_null, cid_tag, cid_view, commit_views, did_prefix, record_views, signature_view,
    text_or_null, Cid, Commit, CommitOp, CommitView, Did, Nsid, Record, RecordKey, RecordView,
};

verus! {

/// A byte string as JSON: the array of its bytes as numbers.
pub open spec fn bytes_json(bytes: Seq<u8>) -> JsonView {
    JsonView::Array(
        Seq::new(bytes.len(), |i: int| JsonView::Number(NumberView::PosInt(bytes[i] as u64))),
    )
}

/// An optional byte string as JSON: the array of its bytes, or null.
pub open spec fn bytes_or_null(bytes: Option<Seq<u8>>) -> JsonView {
    match bytes {
        Some(b) => bytes_json(b),
        None => JsonView::Null,
    }
}

/// The stored form of a record.
pub open spec fn record_json(r: RecordView) -> JsonView {
    JsonView::Object(
        Map::empty().insert("collection"@, JsonView::String(r.collection)).insert(
            "rkey"@,
            JsonView::String(r.rkey),
        ).insert("value"@, r.value).insert("created_at"@, JsonView::String(r.created_at.stored_text())),
    )
}

/// The stored form of a commit.
pub open spec fn commit_json(c: CommitView) -> JsonView {
    JsonView::Object(
        Map::empty().insert("did"@, JsonView::String(c.did)).insert(
            "operation"@,
            JsonView::String(c.operation.name()),
        ).insert("collection"@, JsonView::String(c.collection)).insert(
            "rkey"@,
            JsonView::String(c.rkey),
        ).insert("record_cid"@, text_or_null(c.record_cid)).insert(
            "prev"@,
            text_or_null(c.prev),
        ).insert("timestamp"@, JsonView::String(c.timestamp.stored_text())).insert(
            "signature"@,
            bytes_or_null(c.signature),
        ),
    )
}

/// The stored bytes of a record.
pub open spec fn record_bytes(r: RecordView) -> Seq<u8> {
    json_text(record_json(r))
}

/// The stored bytes of a commit.
pub open spec fn commit_bytes(c: CommitView) -> Seq<u8> {
    json_text(commit_json(c))
}

/// The text of a field that holds a string.
pub open spec fn text_field(j: JsonView, key: Seq<char>) -> Option<Seq<char>> {
    match j.field(key) {
        Some(JsonView::String(s)) => Some(s),
        _ => None,
    }
}

/// An optional CID in a field: absent or null for none, a string that begins
/// with the CID tag for one. The outer `None` is for anything else.
pub open spec fn optional_cid_field(j: JsonView, key: Seq<char>) -> Option<Option<Seq<char>>> {
    match j.field(key) {
        None => Some(None),
        Some(JsonView::Null) => Some(None),
        Some(JsonView::String(s)) => if cid_tag().is_prefix_of(s) {
            Some(Some(s))
        } else {
            None
        },
        _ => None,
    }
}

/// The byte that a JSON value stands for: an integer from 0 to 255.
pub open spec fn byte_of(j: JsonView) -> Option<u8> {
    match j {
        JsonView::Number(NumberView::PosInt(u)) => if u <= 255 {
            Some(u as u8)
        } else {
            None
        },
        _ => None,
    }
}

/// The bytes that a list of JSON values stands for, where each stands for one.
pub open spec fn bytes_of(items: Seq<JsonView>) -> Option<Seq<u8>> {
    if forall|i: int| 0 <= i < items.len() ==> (#[trigger] byte_of(items[i])) is Some {
        Some(Seq::new(items.len(), |i: int| byte_of(items[i]).unwrap()))
    } else {
        None
    }
}

/// Optional bytes in a field: absent or null for none, an array of bytes for
/// some. The outer `None` is for anything else.
pub open spec fn optional_bytes_field(j: JsonView, key: Seq<char>) -> Option<Option<Seq<u8>>> {
    match j.field(key) {
        None => Some(None),
        Some(JsonView::Null) => Some(None),
        Some(JsonView::Array(items)) => match bytes_of(items) {
            Some(b) => Some(Some(b)),
            None => None,
        },
        _ => None,
    }
}

/// The operation with the given name.
pub open spec fn op_of(name: Seq<char>) -> Option<CommitOp> {
    if name == "Create"@ {
        Some(CommitOp::Create)
    } else if name == "Update"@ {
        Some(CommitOp::Update)
    } else if name == "Delete"@ {
        Some(CommitOp::Delete)
    } else {
        None
    }
}

/// The time in a field that holds RFC 3339 text.
pub open spec fn time_field(j: JsonView, key: Seq<char>) -> Option<crate::time::TimeView> {
    match text_field(j, key) {
        Some(t) => read_time(t),
        None => None,
    }
}

/// The record that a JSON value is the stored form of, if it is one: an
/// object with a collection that holds a dot, a key that is not empty, a
/// value and a time.
pub open spec fn record_of_json(j: JsonView) -> Option<RecordView> {
    match (
        text_field(j, "collection"@),
        text_field(j, "rkey"@),
        j.field("value"@),
        time_field(j, "created_at"@),
    ) {
        (Some(collection), Some(rkey), Some(value), Some(created_at)) => if collection.contains('.')
            && rkey.len() > 0 {
            Some(RecordView { collection, rkey, value, created_at })
        } else {
            None
        },
        _ => None,
    }
}

/// The commit that a JSON value is the stored form of, if it is one.
pub open spec fn commit_of_json(j: JsonView) -> Option<CommitView> {
    match (
        text_field(j, "did"@),
        text_field(j, "operation"@),
        text_field(j, "collection"@),
        text_field(j, "rkey"@),
        optional_cid_field(j, "record_cid"@),
        optional_cid_field(j, "prev"@),
        time_field(j, "timestamp"@),
        optional_bytes_field(j, "signature"@),
    ) {
        (
            Some(did),
            Some(operation),
            Some(collection),
            Some(rkey),
            Some(record_cid),
            Some(prev),
            Some(timestamp),
            Some(signature),
        ) => match op_of(operation) {
            Some(operation) => if did_prefix().is_prefix_of(did) && collection.contains('.')
                && rkey.len() > 0 {
                Some(
                    CommitView {
                        did,
                        operation,
                        collection,
                        rkey,
                        record_cid,
                        prev,
                        timestamp,
                        signature,
                    },
                )
            } else {
                None
            },
            None => None,
        },
        _ => None,
    }
}

/// The record that stored bytes hold, if they hold one.
pub open spec fn record_of_bytes(bytes: Seq<u8>) -> Option<RecordView> {
    match json_parse(bytes) {
        Some(j) => record_of_json(j),
        None => None,
    }
}

/// The commit that stored bytes hold, if they hold one.
pub open spec fn commit_of_bytes(bytes: Seq<u8>) -> Option<CommitView> {
    match json_parse(bytes) {
        Some(j) => commit_of_json(j),
        None => None,
    }
}

/// A byte string as a JSON array of numbers.
pub fn bytes_to_json(bytes: &[u8]) -> (v: serde_json::Value)
    ensures
        json_model(v) == bytes_json(bytes@),
{
    let mut items: Vec<serde_json::Value> = Vec::new();
    let mut i: usize = 0;
    while i < bytes.len()
        invariant
            i <= bytes@.len(),
            items@.len() == i,
            forall|j: int|
                0 <= j < i ==> json_model(#[trigger] items@[j]) == JsonView::Number(
                    NumberView::PosInt(bytes@[j] as u64),
                ),
        decreases bytes@.len() - i,
    {
        items.push(json_from_u64(bytes[i] as u64));
        i += 1;
    }
    let v = json_array(items);
    assert(json_model(v)->Array_0 =~= bytes_json(bytes@)->Array_0);
    v
}

/// The bytes that a JSON array of numbers from 0 to 255 stands for.
pub fn bytes_from_json(v: &serde_json::Value) -> (r: Option<Vec<u8>>)
    ensures
        match json_model(*v) {
            JsonView::Array(items) => match bytes_of(items) {
                Some(b) => r matches Some(out) && out@ == b,
                None => r is None,
            },
            _ => r is None,
        },
{
    match json_as_array(v) {
        None => None,
        Some(items) => {
            let ghost model = json_model(*v)->Array_0;
            let mut out: Vec<u8> = Vec::new();
            let mut i: usize = 0;
            while i < items.len()
                invariant
                    i <= items@.len(),
                    items@.len() == model.len(),
                    json_model(*v) == JsonView::Array(model),
                    forall|j: int| 0 <= j < model.len() ==> json_model(#[trigger] items@[j]) == model[j],
                    out@.len() == i,
                    forall|j: int| 0 <= j < i ==> #[trigger] byte_of(model[j]) == Some(out@[j]),
                decreases items@.len() - i,
            {
                match json_as_u64(&items[i]) {
                    Some(u) => {
                        if u > 255 {
                            assert(byte_of(model[i as int]) is None);
                            return None;
                        }
                        out.push(u as u8);
                    },
                    None => {
                        assert(byte_of(model[i as int]) is None);
                        return None;
                    },
                }
                i += 1;
            }
            assert(bytes_of(model) is Some);
            assert(out@ =~= bytes_of(model).unwrap());
            Some(out)
        },
    }
}

fn required_text<'a>(v: &'a serde_json::Value, key: &str) -> (r: Option<&'a str>)
    ensures
        match text_field(json_model(*v), key@) {
            Some(s) => r matches Some(t) && t@ == s,
            None => r is None,
        },
{
    match json_get(v, key) {
        Some(x) => json_as_str(x),
        None => None,
    }
}

fn optional_cid(v: &serde_json::Value, key: &str) -> (r: Option<Option<Cid>>)
    ensures
        match optional_cid_field(json_model(*v), key@) {
            Some(c) => r matches Some(x) && cid_view(x) == c,
            None => r is None,
        },
{
    match json_get(v, key) {
        None => Some(None),
        Some(x) => {
            if json_is_null(x) {
                Some(None)
            } else {
                match json_as_str(x) {
                    Some(s) => match Cid::from_string(s) {
                        Ok(c) => Some(Some(c)),
                        Err(_) => None,
                    },
                    None => None,
                }
            }
        },
    }
}

fn optional_bytes(v: &serde_json::Value, key: &str) -> (r: Option<Option<Vec<u8>>>)
    ensures
        match optional_bytes_field(json_model(*v), key@) {
            Some(b) => r matches Some(x) && signature_view(x) == b,
            None => r is None,
        },
{
    match json_get(v, key) {
        None => Some(None),
        Some(x) => {
            if json_is_null(x) {
                Some(None)
            } else {
                match bytes_from_json(x) {
                    Some(b) => Some(Some(b)),
                    None => None,
                }
            }
        },
    }
}

fn required_time(v: &serde_json::Value, key: &str) -> (r: Option<Timestamp>)
    ensures
        match time_field(json_model(*v), key@) {
            Some(t) => r matches Some(x) && x@ == t,
            None => r is None,
        },
{
    match required_text(v, key) {
        Some(text) => Timestamp::parse(text),
        None => None,
    }
}

impl CommitOp {
    /// The operation with the given name.
    pub fn from_name(name: &str) -> (r: Option<CommitOp>)
        ensures
            r == op_of(name@),
    {
        if same_text(name, "Create") {
            Some(CommitOp::Create)
        } else if same_text(name, "Update") {
            Some(CommitOp::Update)
        } else if same_text(name, "Delete") {
            Some(CommitOp::Delete)
        } else {
            None
        }
    }
}

/// The error for stored data that is not what it should be.
pub(crate) fn malformed(what: &str) -> (e: Error)
    ensures
        e is SerializationError,
{
    Error::SerializationError(what.to_owned())
}

impl Record {
    /// The stored form of the record, as a JSON value.
    pub fn to_json(&self) -> (v: serde_json::Value)
        ensures
            json_model(v) == record_json(self@),
    {
        let mut object = json_empty_object();
        json_set_field(&mut object, "collection", json_string(self.collection.as_str()));
        json_set_field(&mut object, "rkey", json_string(self.rkey.as_str()));
        json_set_field(&mut object, "value", json_clone(&self.value));
        let time = self.created_at.to_stored_text();
        json_set_field(&mut object, "created_at", json_string(time.as_str()));
        object
    }

    /// Reads a record from its stored form. Anything that is not the stored
    /// form of a record is refused with `SerializationError`.
    pub fn from_json(v: &serde_json::Value) -> (r: Result<Record, Error>)
        ensures
            match record_of_json(json_model(*v)) {
                Some(record) => r matches Ok(x) && x@ == record,
                None => r matches Err(e) && e is SerializationError,
            },
    {
        let collection = match required_text(v, "collection") {
            Some(text) => match Nsid::new(text) {
                Ok(c) => c,
                Err(_) => {
                    return Err(malformed("record: invalid collection"));
                },
            },
            None => {
                return Err(malformed("record: missing collection"));
            },
        };
        let rkey = match required_text(v, "rkey") {
            Some(text) => {
                if text.is_empty() {
                    return Err(malformed("record: empty rkey"));
                }
                RecordKey::new(text)
            },
            None => {
                return Err(malformed("record: missing rkey"));
            },
        };
        let value = match json_get(v, "value") {
            Some(x) => json_clone(x),
            None => {
                return Err(malformed("record: missing value"));
            },
        };
        let created_at = match required_time(v, "created_at") {
            Some(t) => t,
            None => {
                return Err(malformed("record: invalid created_at"));
            },
        };
        Ok(Record { collection, rkey, value, created_at })
    }

    /// The stored bytes of the record: the compact JSON text of its stored
    /// form.
    pub fn to_bytes(&self) -> (r: Result<Vec<u8>, Error>)
        ensures
            match r {
                Ok(bytes) => bytes@ == record_bytes(self@),
                Err(_) => false,
            },
    {
        match json_to_vec(&self.to_json()) {
            Ok(bytes) => Ok(bytes),
            Err(m) => Err(Error::SerializationError(m)),
        }
    }

    /// Reads a record from stored bytes.
    pub fn from_bytes(bytes: &[u8]) -> (r: Result<Record, Error>)
        ensures
            match record_of_bytes(bytes@) {
                Some(record) => r matches Ok(x) && x@ == record,
                None => r matches Err(e) && e is SerializationError,
            },
    {
        match json_from_slice(bytes) {
            Ok(v) => Record::from_json(&v),
            Err(m) => Err(Error::SerializationError(m)),
        }
    }
}

impl Commit {
    /// The stored form of the commit, as a JSON value.
    pub fn to_json(&self) -> (v: serde_json::Value)
        ensures
            json_model(v) == commit_json(self@),
    {
        let mut object = json_empty_object();
        json_set_field(&mut object, "did", json_string(self.did.as_str()));
        json_set_field(&mut object, "operation", json_string(self.operation.as_str()));
        json_set_field(&mut object, "collection", json_string(self.collection.as_str()));
        json_set_field(&mut object, "rkey", json_string(self.rkey.as_str()));
        json_set_field(&mut object, "record_cid", cid_or_null(&self.record_cid));
        json_set_field(&mut object, "prev", cid_or_null(&self.prev));
        let time = self.timestamp.to_stored_text();
        json_set_field(&mut object, "timestamp", json_string(time.as_str()));
        let signature = match &self.signature {
            Some(s) => bytes_to_json(s.as_slice()),
            None => json_null(),
        };
        json_set_field(&mut object, "signature", signature);
        object
    }

    /// Reads a commit from its stored form. Anything that is not the stored
    /// form of a commit is refused with `SerializationError`.
    pub fn from_json(v: &serde_json::Value) -> (r: Result<Commit, Error>)
        ensures
            match commit_of_json(json_model(*v)) {
                Some(commit) => r matches Ok(x) && x@ == commit,
                None => r matches Err(e) && e is SerializationError,
            },
    {
        let did_text = required_text(v, "did");
        let operation_text = required_text(v, "operation");
        let collection_text = required_text(v, "collection");
        let rkey_text = required_text(v, "rkey");
        let record_cid = optional_cid(v, "record_cid");
        let prev = optional_cid(v, "prev");
        let timestamp = required_time(v, "timestamp");
        let signature = optional_bytes(v, "signature");
        match (
            did_text,
            operation_text,
            collection_text,
            rkey_text,
            record_cid,
            prev,
            timestamp,
            signature,
        ) {
            (
                Some(did_text),
                Some(operation_text),
                Some(collection_text),
                Some(rkey_text),
                Some(record_cid),
                Some(prev),
                Some(timestamp),
                Some(signature),
            ) => {
                let operation = match CommitOp::from_name(operation_text) {
                    Some(op) => op,
                    None => {
                        return Err(malformed("commit: unknown operation"));
                    },
                };
                let did = match Did::new(did_text) {
                    Ok(d) => d,
                    Err(_) => {
                        return Err(malformed("commit: invalid did"));
                    },
                };
                let collection = match Nsid::new(collection_text) {
                    Ok(c) => c,
                    Err(_) => {
                        return Err(malformed("commit: invalid collection"));
                    },
                };
                if rkey_text.is_empty() {
                    return Err(malformed("commit: empty rkey"));
                }
                let rkey = RecordKey::new(rkey_text);
                Ok(
                    Commit {
                        did,
                        operation,
                        collection,
                        rkey,
                        record_cid,
                        prev,
                        timestamp,
                        signature,
                    },
                )
            },
            _ => Err(malformed("commit: missing or malformed field")),
        }
    }

    /// The stored bytes of the commit: the compact JSON text of its stored
    /// form.
    pub fn to_bytes(&self) -> (r: Result<Vec<u8>, Error>)
        ensures
            match r {
                Ok(bytes) => bytes@ == commit_bytes(self@),
                Err(_) => false,
            },
    {
        match json_to_vec(&self.to_json()) {
            Ok(bytes) => Ok(bytes),
            Err(m) => Err(Error::SerializationError(m)),
        }
    }

    /// Reads a commit from stored bytes.
    pub fn from_bytes(bytes: &[u8]) -> (r: Result<Commit, Error>)
        ensures
            match commit_of_bytes(bytes@) {
                Some(commit) => r matches Ok(x) && x@ == commit,
                None => r matches Err(e) && e is SerializationError,
            },
    {
        match json_from_slice(bytes) {
            Ok(v) => Commit::from_json(&v),
            Err(m) => Err(Error::SerializationError(m)),
        }
    }
}

/// A list of records as JSON: the array of their stored forms.
pub open spec fn records_json(records: Seq<RecordView>) -> JsonView {
    JsonView::Array(Seq::new(records.len(), |i: int| record_json(records[i])))
}

/// A list of commits as JSON: the array of their stored forms.
pub open spec fn commits_json(commits: Seq<CommitView>) -> JsonView {
    JsonView::Array(Seq::new(commits.len(), |i: int| commit_json(commits[i])))
}

/// The records that a JSON array holds, where each item is the stored form
/// of one.
pub open spec fn records_of_json(j: JsonView) -> Option<Seq<RecordView>> {
    match j {
        JsonView::Array(items) => if forall|i: int|
            0 <= i < items.len() ==> (#[trigger] record_of_json(items[i])) is Some {
            Some(Seq::new(items.len(), |i: int| record_of_json(items[i]).unwrap()))
        } else {
            None
        },
        _ => None,
    }
}

/// The commits that a JSON array holds, where each item is the stored form
/// of one.
pub open spec fn commits_of_json(j: JsonView) -> Option<Seq<CommitView>> {
    match j {
        JsonView::Array(items) => if forall|i: int|
            0 <= i < items.len() ==> (#[trigger] commit_of_json(items[i])) is Some {
            Some(Seq::new(items.len(), |i: int| commit_of_json(items[i]).unwrap()))
        } else {
            None
        },
        _ => None,
    }
}

/// The records in a field that holds an array of stored records.
pub open spec fn records_field(j: JsonView, key: Seq<char>) -> Option<Seq<RecordView>> {
    match j.field(key) {
        Some(x) => records_of_json(x),
        None => None,
    }
}

/// The commits in a field that holds an array of stored commits.
pub open spec fn commits_field(j: JsonView, key: Seq<char>) -> Option<Seq<CommitView>> {
    match j.field(key) {
        Some(x) => commits_of_json(x),
        None => None,
    }
}

/// A list of records as a JSON array.
pub fn records_to_json(records: &Vec<Record>) -> (v: serde_json::Value)
    ensures
        json_model(v) == records_json(record_views(records@)),
{
    let mut items: Vec<serde_json::Value> = Vec::new();
    let mut i: usize = 0;
    while i < records.len()
        invariant
            i <= records@.len(),
            items@.len() == i,
            forall|j: int| 0 <= j < i ==> json_model(#[trigger] items@[j]) == record_json(records@[j]@),
        decreases records@.len() - i,
    {
        items.push(records[i].to_json());
        i += 1;
    }
    let v = json_array(items);
    assert(json_model(v)->Array_0 =~= records_json(record_views(records@))->Array_0);
    v
}

/// A list of commits as a JSON array.
pub fn commits_to_json(commits: &Vec<Commit>) -> (v: serde_json::Value)
    ensures
        json_model(v) == commits_json(commit_views(commits@)),
{
    let mut items: Vec<serde_json::Value> = Vec::new();
    let mut i: usize = 0;
    while i < commits.len()
        invariant
            i <= commits@.len(),
            items@.len() == i,
            forall|j: int| 0 <= j < i ==> json_model(#[trigger] items@[j]) == commit_json(commits@[j]@),
        decreases commits@.len() - i,
    {
        items.push(commits[i].to_json());
        i += 1;
    }
    let v = json_array(items);
    assert(json_model(v)->Array_0 =~= commits_json(commit_views(commits@))->Array_0);
    v
}

/// The records that a JSON array holds; nothing where the value is no array
/// or an item is no stored record.
pub fn records_from_json(v: &serde_json::Value) -> (r: Option<Vec<Record>>)
    ensures
        match records_of_json(json_model(*v)) {
            Some(records) => r matches Some(out) && record_views(out@) == records,
            None => r is None,
        },
{
    match json_as_array(v) {
        None => None,
        Some(items) => {
            let ghost model = json_model(*v)->Array_0;
            let mut out: Vec<Record> = Vec::new();
            let mut i: usize = 0;
            while i < items.len()
                invariant
                    i <= items@.len(),
                    items@.len() == model.len(),
                    json_model(*v) == JsonView::Array(model),
                    forall|j: int| 0 <= j < model.len() ==> json_model(#[trigger] items@[j]) == model[j],
                    out@.len() == i,
                    forall|j: int| 0 <= j < i ==> #[trigger] record_of_json(model[j]) == Some(out@[j]@),
                decreases items@.len() - i,
            {
                match Record::from_json(&items[i]) {
                    Ok(record) => {
                        out.push(record);
                    },
                    Err(_) => {
                        assert(record_of_json(model[i as int]) is None);
                        return None;
                    },
                }
                i += 1;
            }
            assert(records_of_json(json_model(*v)) is Some);
            assert(record_views(out@) =~= records_of_json(json_model(*v)).unwrap());
            Some(out)
        },
    }
}

/// The commits that a JSON array holds; nothing where the value is no array
/// or an item is no stored commit.
pub fn commits_from_json(v: &serde_json::Value) -> (r: Option<Vec<Commit>>)
    ensures
        match commits_of_json(json_model(*v)) {
            Some(commits) => r matches Some(out) && commit_views(out@) == commits,
            None => r is None,
        },
{
    match json_as_array(v) {
        None => None,
        Some(items) => {
            let ghost model = json_model(*v)->Array_0;
            let mut out: Vec<Commit> = Vec::new();
            let mut i: usize = 0;
            while i < items.len()
                invariant
                    i <= items@.len(),
                    items@.len() == model.len(),
                    json_model(*v) == JsonView::Array(model),
                    forall|j: int| 0 <= j < model.len() ==> json_model(#[trigger] items@[j]) == model[j],
                    out@.len() == i,
                    forall|j: int| 0 <= j < i ==> #[trigger] commit_of_json(model[j]) == Some(out@[j]@),
                decreases items@.len() - i,
            {
                match Commit::from_json(&items[i]) {
                    Ok(commit) => {
                        out.push(commit);
                    },
                    Err(_) => {
                        assert(commit_of_json(model[i as int]) is None);
                        return None;
                    },
                }
                i += 1;
            }
            assert(commits_of_json(json_model(*v)) is Some);
            assert(commit_views(out@) =~= commits_of_json(json_model(*v)).unwrap());
            Some(out)
        },
    }
}

/// The text in a field that holds a string, copied.
pub fn text_from_field(v: &serde_json::Value, key: &str) -> (r: Option<String>)
    ensures
        match text_field(json_model(*v), key@) {
            Some(s) => r matches Some(t) && t@ == s,
            None => r is None,
        },
{
    match required_text(v, key) {
        Some(text) => Some(text.to_owned()),
        None => None,
    }
}

/// The time in a field that holds RFC 3339 text.
pub fn time_from_field(v: &serde_json::Value, key: &str) -> (r: Option<Timestamp>)
    ensures
        match time_field(json_model(*v), key@) {
            Some(t) => r matches Some(x) && x@ == t,
            None => r is None,
        },
{
    required_time(v, key)
}

/// The records in a field that holds an array of stored records.
pub fn records_from_field(v: &serde_json::Value, key: &str) -> (r: Option<Vec<Record>>)
    ensures
        match records_field(json_model(*v), key@) {
            Some(records) => r matches Some(out) && record_views(out@) == records,
            None => r is None,
        },
{
    match json_get(v, key) {
        Some(x) => records_from_json(x),
        None => None,
    }
}

/// The commits in a field that holds an array of stored commits.
pub fn commits_from_field(v: &serde_json::Value, key: &str) -> (r: Option<Vec<Commit>>)
    ensures
        match commits_field(json_model(*v), key@) {
            Some(commits) => r matches Some(out) && commit_views(out@) == commits,
            None => r is None,
        },
{
    match json_get(v, key) {
        Some(x) => commits_from_json(x),
        None => None,
    }
}

impl RecordView {
    /// Whether the record is one that its stored form gives back: its
    /// collection holds a dot, its key is not empty, and the text of its
    /// time reads back as that time.
    pub open spec fn storable(self) -> bool {
        self.collection.contains('.') && self.rkey.len() > 0 && self.created_at.reads_back()
    }
}

impl CommitView {
    /// Whether the commit is one that its stored form gives back: its
    /// identifiers are well-formed, and the text of its time reads back as
    /// that time.
    pub open spec fn storable(self) -> bool {
        &&& did_prefix().is_prefix_of(self.did)
        &&& self.collection.contains('.')
        &&& self.rkey.len() > 0
        &&& (self.record_cid matches Some(c) ==> cid_tag().is_prefix_of(c))
        &&& (self.prev matches Some(c) ==> cid_tag().is_prefix_of(c))
        &&& self.timestamp.reads_back()
    }
}

/// Whether every record of a list is storable.
pub open spec fn all_records_storable(records: Seq<RecordView>) -> bool {
    forall|i: int| 0 <= i < records.len() ==> (#[trigger] records[i]).storable()
}

/// Whether every commit of a list is storable.
pub open spec fn all_commits_storable(commits: Seq<CommitView>) -> bool {
    forall|i: int| 0 <= i < commits.len() ==> (#[trigger] commits[i]).storable()
}

/// The names of the fields of a stored record differ from one another: by
/// their lengths, or by their second letters.
pub proof fn lemma_record_fields_differ()
    ensures
        "collection"@.len() == 10 && "collection"@[1] == 'o',
        "rkey"@.len() == 4,
        "value"@.len() == 5,
        "created_at"@.len() == 10 && "created_at"@[1] == 'r',
{
    reveal_strlit("collection");
    reveal_strlit("rkey");
    reveal_strlit("value");
    reveal_strlit("created_at");
}

/// The names of the fields of a stored commit differ from one another: by
/// their lengths, or by their first letters.
pub proof fn lemma_commit_fields_differ()
    ensures
        "did"@.len() == 3,
        "operation"@.len() == 9 && "operation"@[0] == 'o',
        "collection"@.len() == 10 && "collection"@[0] == 'c',
        "rkey"@.len() == 4 && "rkey"@[0] == 'r',
        "record_cid"@.len() == 10 && "record_cid"@[0] == 'r',
        "prev"@.len() == 4 && "prev"@[0] == 'p',
        "timestamp"@.len() == 9 && "timestamp"@[0] == 't',
        "signature"@.len() == 9 && "signature"@[0] == 's',
{
    reveal_strlit("did");
    reveal_strlit("operation");
    reveal_strlit("collection");
    reveal_strlit("rkey");
    reveal_strlit("record_cid");
    reveal_strlit("prev");
    reveal_strlit("timestamp");
    reveal_strlit("signature");
}

/// The names of the operations differ from one another.
pub proof fn lemma_op_names_differ()
    ensures
        forall|op: CommitOp| op_of(#[trigger] op.name()) == Some(op),
{
    reveal_strlit("Create");
    reveal_strlit("Update");
    reveal_strlit("Delete");
    assert("Create"@[0] != "Update"@[0]);
    assert("Create"@[0] != "Delete"@[0]);
    assert("Update"@[0] != "Delete"@[0]);
}

/// The array of the bytes of a byte string stands for that byte string.
pub proof fn lemma_bytes_round_trip(bytes: Seq<u8>)
    ensures
        bytes_of(bytes_json(bytes)->Array_0) == Some(bytes),
{
    let items = bytes_json(bytes)->Array_0;
    assert forall|i: int| 0 <= i < items.len() implies (#[trigger] byte_of(items[i])) == Some(
        bytes[i],
    ) by {}
    assert(bytes_of(items).unwrap() =~= bytes);
}

/// A storable record is the record that its stored form holds.
pub proof fn lemma_record_round_trip(r: RecordView)
    requires
        r.storable(),
    ensures
        record_of_json(record_json(r)) == Some(r),
{
    lemma_record_fields_differ();
    let j = record_json(r);
    assert(j.field("collection"@) == Some(JsonView::String(r.collection)));
    assert(j.field("rkey"@) == Some(JsonView::String(r.rkey)));
    assert(j.field("value"@) == Some(r.value));
    assert(j.field("created_at"@) == Some(JsonView::String(r.created_at.stored_text())));
}

/// A storable commit is the commit that its stored form holds.
pub proof fn lemma_commit_round_trip(c: CommitView)
    requires
        c.storable(),
    ensures
        commit_of_json(commit_json(c)) == Some(c),
{
    lemma_commit_fields_differ();
    lemma_op_names_differ();
    let j = commit_json(c);
    assert("rkey"@[0] != "prev"@[0]);
    assert("collection"@[0] != "record_cid"@[0]);
    assert("operation"@[0] != "timestamp"@[0]);
    assert("operation"@[0] != "signature"@[0]);
    assert("timestamp"@[0] != "signature"@[0]);
    assert(j.field("did"@) == Some(JsonView::String(c.did)));
    assert(j.field("operation"@) == Some(JsonView::String(c.operation.name())));
    assert(j.field("collection"@) == Some(JsonView::String(c.collection)));
    assert(j.field("rkey"@) == Some(JsonView::String(c.rkey)));
    assert(j.field("record_cid"@) == Some(text_or_null(c.record_cid)));
    assert(j.field("prev"@) == Some(text_or_null(c.prev)));
    assert(j.field("timestamp"@) == Some(JsonView::String(c.timestamp.stored_text())));
    assert(j.field("signature"@) == Some(bytes_or_null(c.signature)));
    assert(optional_cid_field(j, "record_cid"@) == Some(c.record_cid));
    assert(optional_cid_field(j, "prev"@) == Some(c.prev));
    assert(optional_bytes_field(j, "signature"@) == Some(c.signature)) by {
        match c.signature {
            Some(b) => {
                lemma_bytes_round_trip(b);
            },
            None => {},
        }
    }
    assert(op_of(c.operation.name()) == Some(c.operation));
}

/// Storable records are the records that their array holds.
pub proof fn lemma_records_round_trip(records: Seq<RecordView>)
    requires
        all_records_storable(records),
    ensures
        records_of_json(records_json(records)) == Some(records),
{
    let items = records_json(records)->Array_0;
    assert forall|i: int| 0 <= i < items.len() implies (#[trigger] record_of_json(items[i])) == Some(
        records[i],
    ) by {
        lemma_record_round_trip(records[i]);
    }
    assert(records_of_json(records_json(records)).unwrap() =~= records);
}

/// Storable commits are the commits that their array holds, in the same
/// order.
pub proof fn lemma_commits_round_trip(commits: Seq<CommitView>)
    requires
        all_commits_storable(commits),
    ensures
        commits_of_json(commits_json(commits)) == Some(commits),
{
    let items = commits_json(commits)->Array_0;
    assert forall|i: int| 0 <= i < items.len() implies (#[trigger] commit_of_json(items[i])) == Some(
        commits[i],
    ) by {
        lemma_commit_round_trip(commits[i]);
    }
    assert(commits_of_json(commits_json(commits)).unwrap() =~= commits);
}

} // verus!
