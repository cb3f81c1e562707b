//! Identifiers, records and commits.

use vstd::prelude::*;
use vstd::string::*;

use crate::error::Error;
use crate::hash::{hex_encode, hex_lower, sha256, sha256_digest};
use crate::json::{
    json_clone, json_empty_object, json_is_object, json_model, json_null, json_set_field,
    json_string, json_text, json_to_vec, JsonView,
};
use crate::text::{
    concat, concat3, contains_char, differs_first_at, lemma_before_behind,
    lemma_not_before_itself, lemma_padded_digits, lemma_padded_len, lemma_padded_order, padded,
    pow10, starts_with, text_before, u64_to_padded,
};
use crate::time::{TimeView, Timestamp};

verus! {

/// The scheme prefix of every DID: `did:`.
pub open spec fn did_prefix() -> Seq<char> {
    seq!['d', 'i', 'd', ':']
}

/// The tag with which the text of every CID begins: `bafy`.
pub open spec fn cid_tag() -> Seq<char> {
    seq!['b', 'a', 'f', 'y']
}

/// The prefix of a CID that this library derives from bytes: `bafyrei`.
pub open spec fn cid_derived_prefix() -> Seq<char> {
    seq!['b', 'a', 'f', 'y', 'r', 'e', 'i']
}

/// The text of the CID of a byte string: `bafyrei`, then the 64
/// hexadecimal digits of the SHA-256 digest of the bytes.
pub open spec fn cid_text(data: Seq<u8>) -> Seq<char> {
    cid_derived_prefix() + hex_lower(sha256_digest(data))
}

/// The path of a record: its collection, a slash, its key.
pub open spec fn record_path(collection: Seq<char>, rkey: Seq<char>) -> Seq<char> {
    collection + seq!['/'] + rkey
}

/// The key generated for a time: `tid_`, then the microseconds since the
/// epoch in 19 decimal digits. For a time before the epoch a minus sign
/// stands before the digits, and the digits count the microseconds from the
/// earliest time that 64 bits hold, so that the key of an earlier time
/// comes first throughout.
pub open spec fn tid_text(micros: int) -> Seq<char> {
    seq!['t', 'i', 'd', '_'] + if micros < 0 {
        seq!['-'] + padded((micros + 0x8000_0000_0000_0000) as nat, 19)
    } else {
        padded(micros as nat, 19)
    }
}

/// Whether `key` is the key generated for `time`, and `time` is a reading of
/// the system clock.
pub open spec fn is_key_of_reading(key: Seq<char>, time: TimeView) -> bool {
    time.is_reading() && key == tid_text(time.micros())
}

/// A decentralised identifier: text that begins with `did:`.
#[derive(Debug, Hash)]
pub struct Did(String);

/// A content identifier: text that begins with `bafy`.
#[derive(Debug, Hash)]
pub struct Cid(String);

/// A namespaced identifier of a collection: text that holds a dot.
#[derive(Debug, Hash)]
pub struct Nsid(String);

/// The key of a record within its collection.
#[derive(Debug, Hash)]
pub struct RecordKey(String);

impl View for Did {
    type V = Seq<char>;

    closed spec fn view(&self) -> Seq<char> {
        self.0@
    }
}

impl View for Cid {
    type V = Seq<char>;

    closed spec fn view(&self) -> Seq<char> {
        self.0@
    }
}

impl View for Nsid {
    type V = Seq<char>;

    closed spec fn view(&self) -> Seq<char> {
        self.0@
    }
}

impl View for RecordKey {
    type V = Seq<char>;

    closed spec fn view(&self) -> Seq<char> {
        self.0@
    }
}

impl Did {
    #[verifier::type_invariant]
    spec fn well_formed(self) -> bool {
        did_prefix().is_prefix_of(self.0@)
    }

    /// Accepts text that begins with `did:` and rejects any other.
    pub fn new(did: &str) -> (r: Result<Did, Error>)
        ensures
            match r {
                Ok(d) => did_prefix().is_prefix_of(did@) && d@ == did@,
                Err(e) => !did_prefix().is_prefix_of(did@) && (e matches Error::InvalidDid(m) && m@
                    == "DID must start with 'did:' prefix: "@ + did@),
            },
    {
        proof {
            reveal_strlit("did:");
        }
        assert("did:"@ =~= did_prefix());
        if !starts_with(did, "did:") {
            return Err(Error::InvalidDid(concat("DID must start with 'did:' prefix: ", did)));
        }
        Ok(Did(did.to_owned()))
    }

    /// The text of the identifier.
    pub fn as_str(&self) -> (s: &str)
        ensures
            s@ == self@,
            did_prefix().is_prefix_of(s@),
    {
        proof {
            use_type_invariant(self);
        }
        self.0.as_str()
    }
}

impl PartialEq for Did {
    fn eq(&self, other: &Did) -> (r: bool) {
        self.0 == other.0
    }
}

impl Eq for Did {

}

impl vstd::std_specs::cmp::PartialEqSpecImpl for Did {
    open spec fn obeys_eq_spec() -> bool {
        true
    }

    open spec fn eq_spec(&self, other: &Did) -> bool {
        self@ == other@
    }
}

impl Clone for Did {
    fn clone(&self) -> (c: Did)
        ensures
            c@ == self@,
    {
        proof {
            use_type_invariant(self);
        }
        Did(self.0.clone())
    }
}

impl Cid {
    #[verifier::type_invariant]
    spec fn well_formed(self) -> bool {
        cid_tag().is_prefix_of(self.0@)
    }

    /// The identifier of a byte string: digest, then format. Equal bytes give
    /// equal identifiers, and equal identifiers stand for equal digests.
    pub fn from_bytes(data: &[u8]) -> (c: Cid)
        ensures
            c@ == cid_text(data@),
            c@.len() == 71,
    {
        let digest = sha256(data);
        let hash_str = hex_encode(digest.as_slice());
        proof {
            reveal_strlit("bafyrei");
        }
        let text = concat("bafyrei", hash_str.as_str());
        assert("bafyrei"@ =~= cid_derived_prefix());
        assert(cid_tag().is_prefix_of(text@)) by {
            assert(text@.subrange(0, 4) =~= cid_tag());
        }
        Cid(text)
    }

    /// Accepts text that begins with `bafy` and rejects any other.
    pub fn from_string(cid: &str) -> (r: Result<Cid, Error>)
        ensures
            match r {
                Ok(c) => cid_tag().is_prefix_of(cid@) && c@ == cid@,
                Err(e) => !cid_tag().is_prefix_of(cid@) && (e matches Error::InvalidCid(m) && m@
                    == "Invalid CID format: "@ + cid@),
            },
    {
        proof {
            reveal_strlit("bafy");
        }
        assert("bafy"@ =~= cid_tag());
        if !starts_with(cid, "bafy") {
            return Err(Error::InvalidCid(concat("Invalid CID format: ", cid)));
        }
        Ok(Cid(cid.to_owned()))
    }

    /// The text of the identifier.
    pub fn as_str(&self) -> (s: &str)
        ensures
            s@ == self@,
            cid_tag().is_prefix_of(s@),
    {
        proof {
            use_type_invariant(self);
        }
        self.0.as_str()
    }
}

impl PartialEq for Cid {
    fn eq(&self, other: &Cid) -> (r: bool) {
        self.0 == other.0
    }
}

impl Eq for Cid {

}

impl vstd::std_specs::cmp::PartialEqSpecImpl for Cid {
    open spec fn obeys_eq_spec() -> bool {
        true
    }

    open spec fn eq_spec(&self, other: &Cid) -> bool {
        self@ == other@
    }
}

impl Clone for Cid {
    fn clone(&self) -> (c: Cid)
        ensures
            c@ == self@,
    {
        proof {
            use_type_invariant(self);
        }
        Cid(self.0.clone())
    }
}

impl Nsid {
    #[verifier::type_invariant]
    spec fn well_formed(self) -> bool {
        self.0@.contains('.')
    }

    /// Accepts text that holds a dot and rejects any other.
    pub fn new(nsid: &str) -> (r: Result<Nsid, Error>)
        ensures
            match r {
                Ok(n) => nsid@.contains('.') && n@ == nsid@,
                Err(e) => !nsid@.contains('.') && (e matches Error::ValidationError(m) && m@
                    == "Invalid NSID format: "@ + nsid@),
            },
    {
        if !contains_char(nsid, '.') {
            return Err(Error::ValidationError(concat("Invalid NSID format: ", nsid)));
        }
        Ok(Nsid(nsid.to_owned()))
    }

    /// The text of the identifier.
    pub fn as_str(&self) -> (s: &str)
        ensures
            s@ == self@,
            s@.contains('.'),
    {
        proof {
            use_type_invariant(self);
        }
        self.0.as_str()
    }
}

impl PartialEq for Nsid {
    fn eq(&self, other: &Nsid) -> (r: bool) {
        self.0 == other.0
    }
}

impl Eq for Nsid {

}

impl vstd::std_specs::cmp::PartialEqSpecImpl for Nsid {
    open spec fn obeys_eq_spec() -> bool {
        true
    }

    open spec fn eq_spec(&self, other: &Nsid) -> bool {
        self@ == other@
    }
}

impl Clone for Nsid {
    fn clone(&self) -> (c: Nsid)
        ensures
            c@ == self@,
    {
        proof {
            use_type_invariant(self);
        }
        Nsid(self.0.clone())
    }
}

impl RecordKey {
    #[verifier::type_invariant]
    spec fn well_formed(self) -> bool {
        self.0@.len() > 0
    }

    /// The key with the given text, which has to hold at least one
    /// character: there is no empty key. Any character may occur.
    pub fn new(key: &str) -> (k: RecordKey)
        requires
            key@.len() > 0,
        ensures
            k@ == key@,
    {
        RecordKey(key.to_owned())
    }

    /// The key with the given text, where that holds at least one
    /// character; the empty text is refused with `ValidationError`.
    pub fn try_new(key: &str) -> (r: Result<RecordKey, Error>)
        ensures
            match r {
                Ok(k) => key@.len() > 0 && k@ == key@,
                Err(e) => key@.len() == 0 && (e matches Error::ValidationError(m) && m@
                    == "Record key must not be empty"@),
            },
    {
        if key.is_empty() {
            return Err(Error::ValidationError("Record key must not be empty".to_owned()));
        }
        Ok(RecordKey::new(key))
    }

    /// The key for a point in time: `tid_` and the microseconds since the
    /// epoch in a fixed number of digits. Times of one microsecond have one
    /// key; of two times of different microseconds the earlier has the key
    /// that comes first.
    pub fn from_timestamp(time: &Timestamp) -> (k: RecordKey)
        ensures
            k@ == tid_text(time@.micros()),
            k@.len() > 0,
    {
        let micros = time.micros();
        proof {
            reveal_strlit("tid_");
            reveal_strlit("-");
        }
        let text = if micros < 0 {
            let shifted: u64 = (micros - i64::MIN) as u64;
            let digits = u64_to_padded(shifted, 19);
            concat3("tid_", "-", digits.as_str())
        } else {
            let digits = u64_to_padded(micros as u64, 19);
            concat("tid_", digits.as_str())
        };
        assert(text@ =~= tid_text(micros as int));
        assert(text@.len() >= 4);
        RecordKey(text)
    }

    /// A key for the current time of the system clock: the key of the time
    /// that the clock read. Two calls within one microsecond give the same
    /// key; a call in a later microsecond gives a key that comes later.
    pub fn generate() -> (k: RecordKey)
        ensures
            exists|time: TimeView| #[trigger] is_key_of_reading(k@, time),
            k@.len() > 0,
    {
        let now = Timestamp::now();
        let k = RecordKey::from_timestamp(&now);
        assert(is_key_of_reading(k@, now@));
        k
    }

    /// The text of the key, which is not empty.
    pub fn as_str(&self) -> (s: &str)
        ensures
            s@ == self@,
            s@.len() > 0,
    {
        proof {
            use_type_invariant(self);
        }
        self.0.as_str()
    }
}

impl PartialEq for RecordKey {
    fn eq(&self, other: &RecordKey) -> (r: bool) {
        self.0 == other.0
    }
}

impl Eq for RecordKey {

}

impl vstd::std_specs::cmp::PartialEqSpecImpl for RecordKey {
    open spec fn obeys_eq_spec() -> bool {
        true
    }

    open spec fn eq_spec(&self, other: &RecordKey) -> bool {
        self@ == other@
    }
}

impl Clone for RecordKey {
    fn clone(&self) -> (c: RecordKey)
        ensures
            c@ == self@,
    {
        proof {
            use_type_invariant(self);
        }
        RecordKey(self.0.clone())
    }
}

/// A record: a JSON object addressed by collection and key.
#[derive(Debug)]
pub struct Record {
    /// The collection the record belongs to.
    pub collection: Nsid,
    /// The key of the record within the collection.
    pub rkey: RecordKey,
    /// The data of the record.
    pub value: serde_json::Value,
    /// When the record was made.
    pub created_at: Timestamp,
}

/// What a record holds.
pub struct RecordView {
    pub collection: Seq<char>,
    pub rkey: Seq<char>,
    pub value: JsonView,
    pub created_at: TimeView,
}

impl RecordView {
    /// The path of the record.
    pub open spec fn path(self) -> Seq<char> {
        record_path(self.collection, self.rkey)
    }

    /// The text of the record's CID: that of the compact JSON text of its
    /// value.
    pub open spec fn cid(self) -> Seq<char> {
        cid_text(json_text(self.value))
    }
}

impl View for Record {
    type V = RecordView;

    open spec fn view(&self) -> RecordView {
        RecordView {
            collection: self.collection@,
            rkey: self.rkey@,
            value: json_model(self.value),
            created_at: self.created_at@,
        }
    }
}

/// The path of a collection and a key: `collection/rkey`.
pub(crate) fn path_of(collection: &Nsid, rkey: &RecordKey) -> (p: String)
    ensures
        p@ == record_path(collection@, rkey@),
{
    proof {
        reveal_strlit("/");
    }
    let p = concat3(collection.as_str(), "/", rkey.as_str());
    assert(p@ =~= record_path(collection@, rkey@));
    p
}

impl Record {
    /// A record of the given value, stamped with the time that the system
    /// clock reads.
    pub fn new(collection: Nsid, rkey: RecordKey, value: serde_json::Value) -> (r: Record)
        ensures
            r@.collection == collection@,
            r@.rkey == rkey@,
            r@.value == json_model(value),
            r@.created_at.is_reading(),
    {
        Record { collection, rkey, value, created_at: Timestamp::now() }
    }

    /// Accepts a record whose value is a JSON object and rejects any other.
    pub fn validate(&self) -> (r: Result<(), Error>)
        ensures
            match r {
                Ok(_) => self@.value is Object,
                Err(e) => !(self@.value is Object) && (e matches Error::ValidationError(m) && m@
                    == "Record value must be a JSON object"@),
            },
    {
        if !json_is_object(&self.value) {
            return Err(Error::ValidationError("Record value must be a JSON object".to_owned()));
        }
        Ok(())
    }

    /// The path of the record: `collection/rkey`.
    pub fn path(&self) -> (p: String)
        ensures
            p@ == self@.path(),
    {
        path_of(&self.collection, &self.rkey)
    }

    /// The CID of the record, derived from the compact JSON text of its
    /// value: the same value gives the same CID.
    pub fn cid(&self) -> (r: Result<Cid, Error>)
        ensures
            match r {
                Ok(c) => c@ == self@.cid(),
                Err(_) => false,
            },
    {
        match json_to_vec(&self.value) {
            Ok(json) => Ok(Cid::from_bytes(json.as_slice())),
            Err(m) => Err(Error::SerializationError(m)),
        }
    }
}

impl Clone for Record {
    fn clone(&self) -> (c: Record)
        ensures
            c@ == self@,
    {
        Record {
            collection: self.collection.clone(),
            rkey: self.rkey.clone(),
            value: json_clone(&self.value),
            created_at: self.created_at,
        }
    }
}

/// The kind of change that a commit records.
#[derive(Debug, Clone, Copy, PartialEq, Eq, Structural)]
pub enum CommitOp {
    /// A new record.
    Create,
    /// A new value for an existing record.
    Update,
    /// The removal of a record.
    Delete,
}

impl CommitOp {
    /// The name of the operation, as it is written in JSON.
    pub open spec fn name(self) -> Seq<char> {
        match self {
            CommitOp::Create => "Create"@,
            CommitOp::Update => "Update"@,
            CommitOp::Delete => "Delete"@,
        }
    }

    /// The name of the operation, as it is written in JSON.
    pub fn as_str(&self) -> (s: &'static str)
        ensures
            s@ == self.name(),
    {
        match self {
            CommitOp::Create => "Create",
            CommitOp::Update => "Update",
            CommitOp::Delete => "Delete",
        }
    }
}

/// One entry of the log: a single change to the repository.
#[derive(Debug)]
pub struct Commit {
    /// The owner of the repository.
    pub did: Did,
    /// The kind of change.
    pub operation: CommitOp,
    /// The collection of the record that changed.
    pub collection: Nsid,
    /// The key of the record that changed.
    pub rkey: RecordKey,
    /// The CID of the record's new value; none for a removal.
    pub record_cid: Option<Cid>,
    /// The CID of the commit before this one; none for the first.
    pub prev: Option<Cid>,
    /// When the commit was made.
    pub timestamp: Timestamp,
    /// The signature over the signing bytes, once the commit is signed.
    pub signature: Option<Vec<u8>>,
}

/// What a commit holds.
pub struct CommitView {
    pub did: Seq<char>,
    pub operation: CommitOp,
    pub collection: Seq<char>,
    pub rkey: Seq<char>,
    pub record_cid: Option<Seq<char>>,
    pub prev: Option<Seq<char>>,
    pub timestamp: TimeView,
    pub signature: Option<Seq<u8>>,
}

/// The view of an optional CID.
pub open spec fn cid_view(c: Option<Cid>) -> Option<Seq<char>> {
    match c {
        Some(c) => Some(c@),
        None => None,
    }
}

/// The view of an optional signature.
pub open spec fn signature_view(s: Option<Vec<u8>>) -> Option<Seq<u8>> {
    match s {
        Some(s) => Some(s@),
        None => None,
    }
}

/// An optional text as JSON: a string, or null.
pub open spec fn text_or_null(t: Option<Seq<char>>) -> JsonView {
    match t {
        Some(s) => JsonView::String(s),
        None => JsonView::Null,
    }
}

impl CommitView {
    /// The JSON object that is signed: every field but the signature, the
    /// time as RFC 3339 text.
    pub open spec fn signing_object(self) -> JsonView {
        JsonView::Object(
            Map::empty().insert("did"@, JsonView::String(self.did)).insert(
                "operation"@,
                JsonView::String(self.operation.name()),
            ).insert("collection"@, JsonView::String(self.collection)).insert(
                "rkey"@,
                JsonView::String(self.rkey),
            ).insert("record_cid"@, text_or_null(self.record_cid)).insert(
                "prev"@,
                text_or_null(self.prev),
            ).insert(
                "timestamp"@,
                JsonView::String(self.timestamp.rfc3339()),
            ),
        )
    }

    /// The bytes that are signed and hashed: the compact JSON text of the
    /// signing object.
    pub open spec fn signing_payload(self) -> Seq<u8> {
        json_text(self.signing_object())
    }

    /// The text of the commit's CID: that of its signing payload.
    pub open spec fn cid(self) -> Seq<char> {
        cid_text(self.signing_payload())
    }

    /// Whether the commit names a record CID where its operation needs one.
    pub open spec fn is_valid(self) -> bool {
        self.operation == CommitOp::Delete || self.record_cid is Some
    }
}

impl View for Commit {
    type V = CommitView;

    open spec fn view(&self) -> CommitView {
        CommitView {
            did: self.did@,
            operation: self.operation,
            collection: self.collection@,
            rkey: self.rkey@,
            record_cid: cid_view(self.record_cid),
            prev: cid_view(self.prev),
            timestamp: self.timestamp@,
            signature: signature_view(self.signature),
        }
    }
}

/// An optional CID as a JSON value: its text, or null.
pub(crate) fn cid_or_null(c: &Option<Cid>) -> (v: serde_json::Value)
    ensures
        json_model(v) == text_or_null(cid_view(*c)),
{
    match c {
        Some(c) => json_string(c.as_str()),
        None => json_null(),
    }
}

/// A copy of an optional CID.
pub fn clone_cid(c: &Option<Cid>) -> (copy: Option<Cid>)
    ensures
        cid_view(copy) == cid_view(*c),
{
    match c {
        Some(c) => Some(c.clone()),
        None => None,
    }
}

impl Commit {
    /// An unsigned commit, stamped with the time that the system clock
    /// reads.
    pub fn new(
        did: Did,
        operation: CommitOp,
        collection: Nsid,
        rkey: RecordKey,
        record_cid: Option<Cid>,
        prev: Option<Cid>,
    ) -> (c: Commit)
        ensures
            c@.did == did@,
            c@.operation == operation,
            c@.collection == collection@,
            c@.rkey == rkey@,
            c@.record_cid == cid_view(record_cid),
            c@.prev == cid_view(prev),
            c@.signature is None,
            c@.timestamp.is_reading(),
    {
        Commit {
            did,
            operation,
            collection,
            rkey,
            record_cid,
            prev,
            timestamp: Timestamp::now(),
            signature: None,
        }
    }

    /// The bytes to sign: the compact JSON text of the object that holds
    /// every field but the signature.
    pub fn signing_bytes(&self) -> (r: Result<Vec<u8>, Error>)
        ensures
            match r {
                Ok(bytes) => bytes@ == self@.signing_payload(),
                Err(_) => false,
            },
    {
        let mut object = json_empty_object();
        json_set_field(&mut object, "did", json_string(self.did.as_str()));
        json_set_field(&mut object, "operation", json_string(self.operation.as_str()));
        json_set_field(&mut object, "collection", json_string(self.collection.as_str()));
        json_set_field(&mut object, "rkey", json_string(self.rkey.as_str()));
        json_set_field(&mut object, "record_cid", cid_or_null(&self.record_cid));
        json_set_field(&mut object, "prev", cid_or_null(&self.prev));
        let time = self.timestamp.to_rfc3339();
        json_set_field(&mut object, "timestamp", json_string(time.as_str()));
        match json_to_vec(&object) {
            Ok(bytes) => Ok(bytes),
            Err(m) => Err(Error::SerializationError(m)),
        }
    }

    /// The CID of the commit: that of its signing bytes.
    pub fn cid(&self) -> (r: Result<Cid, Error>)
        ensures
            match r {
                Ok(c) => c@ == self@.cid(),
                Err(_) => false,
            },
    {
        match self.signing_bytes() {
            Ok(bytes) => Ok(Cid::from_bytes(bytes.as_slice())),
            Err(e) => Err(e),
        }
    }

    /// Accepts a commit that names a record CID where its operation is a
    /// creation or an update, and any removal.
    pub fn validate(&self) -> (r: Result<(), Error>)
        ensures
            match r {
                Ok(_) => self@.is_valid(),
                Err(e) => !self@.is_valid() && (e matches Error::ValidationError(m) && m@
                    == "Create/Update commits must have a record CID"@),
            },
    {
        match self.operation {
            CommitOp::Create | CommitOp::Update => {
                if self.record_cid.is_none() {
                    return Err(
                        Error::ValidationError(
                            "Create/Update commits must have a record CID".to_owned(),
                        ),
                    );
                }
            },
            CommitOp::Delete => {},
        }
        Ok(())
    }
}

impl Clone for Commit {
    fn clone(&self) -> (c: Commit)
        ensures
            c@ == self@,
    {
        let signature = match &self.signature {
            Some(s) => Some(s.clone()),
            None => None,
        };
        Commit {
            did: self.did.clone(),
            operation: self.operation,
            collection: self.collection.clone(),
            rkey: self.rkey.clone(),
            record_cid: clone_cid(&self.record_cid),
            prev: clone_cid(&self.prev),
            timestamp: self.timestamp,
            signature,
        }
    }
}

/// The views of a list of records.
pub open spec fn record_views(records: Seq<Record>) -> Seq<RecordView> {
    records.map_values(|r: Record| r@)
}

/// The views of a list of commits.
pub open spec fn commit_views(commits: Seq<Commit>) -> Seq<CommitView> {
    commits.map_values(|c: Commit| c@)
}

/// A copy of a list of records.
pub fn clone_records(records: &Vec<Record>) -> (copy: Vec<Record>)
    ensures
        record_views(copy@) == record_views(records@),
{
    let mut copy: Vec<Record> = Vec::new();
    let mut i: usize = 0;
    while i < records.len()
        invariant
            i <= records@.len(),
            copy@.len() == i,
            forall|j: int| 0 <= j < i ==> (#[trigger] copy@[j])@ == records@[j]@,
        decreases records@.len() - i,
    {
        copy.push(records[i].clone());
        i += 1;
    }
    assert(record_views(copy@) =~= record_views(records@));
    copy
}

/// A copy of a list of commits.
pub fn clone_commits(commits: &Vec<Commit>) -> (copy: Vec<Commit>)
    ensures
        commit_views(copy@) == commit_views(commits@),
{
    let mut copy: Vec<Commit> = Vec::new();
    let mut i: usize = 0;
    while i < commits.len()
        invariant
            i <= commits@.len(),
            copy@.len() == i,
            forall|j: int| 0 <= j < i ==> (#[trigger] copy@[j])@ == commits@[j]@,
        decreases commits@.len() - i,
    {
        copy.push(commits[i].clone());
        i += 1;
    }
    assert(commit_views(copy@) =~= commit_views(commits@));
    copy
}

/// A CID holds a whole digest: byte strings with the same CID have the same
/// SHA-256 digest.
pub proof fn lemma_cid_holds_digest(a: Seq<u8>, b: Seq<u8>)
    requires
        cid_text(a) == cid_text(b),
    ensures
        sha256_digest(a) == sha256_digest(b),
{
    let x = hex_lower(sha256_digest(a));
    let y = hex_lower(sha256_digest(b));
    assert(cid_text(a).subrange(7, cid_text(a).len() as int) =~= x);
    assert(cid_text(b).subrange(7, cid_text(b).len() as int) =~= y);
    crate::hash::lemma_hex_injective(sha256_digest(a), sha256_digest(b));
}

/// The CID of a record depends on its value alone: two records that hold
/// the same value have the same CID.
pub proof fn lemma_record_cid_by_value(a: RecordView, b: RecordView)
    requires
        a.value == b.value,
    ensures
        a.cid() == b.cid(),
{
}

/// Generated keys grow with the time: of two numbers of microseconds that
/// 64 bits hold, the smaller has the key that comes first.
pub proof fn lemma_tid_increasing(a: int, b: int)
    requires
        i64::MIN <= a < b <= i64::MAX,
    ensures
        text_before(tid_text(a), tid_text(b)),
{
    reveal_with_fuel(pow10, 20);
    assert(pow10(19) == 10_000_000_000_000_000_000nat);
    let head = seq!['t', 'i', 'd', '_'];
    if a < 0 && b >= 0 {
        lemma_padded_len((a + 0x8000_0000_0000_0000) as nat, 19);
        lemma_padded_len(b as nat, 19);
        lemma_padded_len((b / 10) as nat, 18);
        let x = seq!['-'] + padded((a + 0x8000_0000_0000_0000) as nat, 19);
        let y = padded(b as nat, 19);
        assert(x[0] == '-');
        assert(y[0] == padded(b as nat, 19)[0]);
        lemma_padded_digits(b as nat, 19);
        assert(x.subrange(0, 0) =~= y.subrange(0, 0));
        assert(differs_first_at(x, y, 0));
        lemma_before_behind(head, x, y, 0);
    } else if a < 0 {
        let m = (a + 0x8000_0000_0000_0000) as nat;
        let n = (b + 0x8000_0000_0000_0000) as nat;
        let i = lemma_padded_order(m, n, 19);
        lemma_before_behind(seq!['-'], padded(m, 19), padded(n, 19), i);
        lemma_before_behind(head, seq!['-'] + padded(m, 19), seq!['-'] + padded(n, 19), 1 + i);
    } else {
        let i = lemma_padded_order(a as nat, b as nat, 19);
        lemma_before_behind(head, padded(a as nat, 19), padded(b as nat, 19), i);
    }
}

/// Generated keys do not collide: the keys for two times are the same only
/// where the times fall into the same microsecond.
pub proof fn lemma_tid_injective(a: int, b: int)
    requires
        i64::MIN <= a <= i64::MAX,
        i64::MIN <= b <= i64::MAX,
        tid_text(a) == tid_text(b),
    ensures
        a == b,
{
    lemma_not_before_itself(tid_text(a));
    if a < b {
        lemma_tid_increasing(a, b);
    } else if b < a {
        lemma_tid_increasing(b, a);
    }
}

} // verus!
