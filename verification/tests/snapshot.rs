use pds_core::error::Error;
use pds_core::repo::Repository;
use pds_core::snapshot::{Backup, CommitLog, RecordSnapshot, Snapshot};
use pds_core::traits::{Ed25519Crypto, MemoryKvStore, SystemClock};
use pds_core::types::{CommitOp, Did, Nsid, Record, RecordKey};

fn object(text: &str) -> serde_json::Value {
    serde_json::from_str(text).unwrap()
}

fn setup_repo() -> Repository<MemoryKvStore, SystemClock, Ed25519Crypto> {
    let did = Did::new("did:plc:test123").unwrap();
    let store = MemoryKvStore::new();
    let clock = SystemClock;
    let crypto = Ed25519Crypto::new();

    Repository::new(did, store, clock, crypto)
}

#[test]
fn test_record_snapshot() {
    let collection = Nsid::new("app.bsky.feed.post").unwrap();
    let rkey = RecordKey::new("test123");
    let value = object(r#"{"text": "Hello world!"}"#);

    let record = Record::new(collection, rkey, value);
    let snapshot = RecordSnapshot::new(record).unwrap();

    // Test JSON serialization
    let json = snapshot.to_json().unwrap();
    assert!(json.contains("Hello world!"));

    // Test deserialization
    let loaded = RecordSnapshot::from_json(&json).unwrap();
    assert_eq!(loaded.cid, snapshot.cid);
}

#[test]
fn test_commit_log() {
    let mut repo = setup_repo();

    // Create some records
    let collection = Nsid::new("app.bsky.feed.post").unwrap();
    for i in 0..3 {
        let rkey = RecordKey::new(&format!("post{}", i));
        let value = object(&format!(r#"{{"text": "Post {}"}}"#, i));
        repo.create_record(collection.clone(), rkey, value).unwrap();
    }

    // Export commit log
    let log = CommitLog::from_repo(&repo).unwrap();
    assert_eq!(log.commits.len(), 3);

    // Test JSON serialization
    let json = log.to_json().unwrap();
    assert!(json.contains("did:plc:test123"));

    // Test deserialization
    let loaded = CommitLog::from_json(&json).unwrap();
    assert_eq!(loaded.commits.len(), 3);
}

#[test]
fn test_full_snapshot() {
    let mut repo = setup_repo();

    // Create some records
    let collection = Nsid::new("app.bsky.feed.post").unwrap();
    for i in 0..2 {
        let rkey = RecordKey::new(&format!("post{}", i));
        let value = object(&format!(r#"{{"text": "Post {}"}}"#, i));
        repo.create_record(collection.clone(), rkey, value).unwrap();
    }

    // Create snapshot
    let snapshot = Snapshot::from_repo(&repo).unwrap();
    assert_eq!(snapshot.did, "did:plc:test123");
    assert_eq!(snapshot.commits.len(), 2);

    // Test JSON serialization
    let json = snapshot.to_json().unwrap();
    assert!(json.contains("did:plc:test123"));

    // Test deserialization
    let loaded = Snapshot::from_json(&json).unwrap();
    assert_eq!(loaded.did, snapshot.did);
    assert_eq!(loaded.commits.len(), 2);
}

#[test]
fn test_snapshot_bytes() {
    let mut repo = setup_repo();

    let collection = Nsid::new("app.bsky.feed.post").unwrap();
    let rkey = RecordKey::new("test123");
    let value = object(r#"{"text": "Test"}"#);
    repo.create_record(collection, rkey, value).unwrap();

    // Create snapshot and export to bytes
    let snapshot = Snapshot::from_repo(&repo).unwrap();
    let bytes = snapshot.to_json_bytes().unwrap();

    // Load from bytes
    let loaded = Snapshot::from_json_bytes(&bytes).unwrap();
    assert_eq!(loaded.did, snapshot.did);
}

#[test]
fn snapshot_round_trip_keeps_owner_and_commits_in_order() {
    let mut repo = setup_repo();
    let collection = Nsid::new("app.feed.post").unwrap();
    repo.create_record(collection.clone(), RecordKey::new("a"), object(r#"{"n": 1}"#)).unwrap();
    repo.update_record(collection.clone(), RecordKey::new("a"), object(r#"{"n": 2}"#)).unwrap();
    repo.create_record(collection.clone(), RecordKey::new("b"), object(r#"{"n": 3}"#)).unwrap();
    repo.delete_record(collection, RecordKey::new("a")).unwrap();

    let snapshot = Snapshot::from_repo(&repo).unwrap();
    assert_eq!(snapshot.version, "1.0.0");
    assert!(snapshot.records.is_empty());
    let loaded = Snapshot::from_json(&snapshot.to_json().unwrap()).unwrap();

    assert_eq!(loaded.did, "did:plc:test123");
    assert_eq!(loaded.version, snapshot.version);
    assert_eq!(loaded.exported_at, snapshot.exported_at);
    assert_eq!(loaded.commits.len(), 4);
    assert_eq!(loaded.records.len(), 0);
    let operations: Vec<CommitOp> = loaded.commits.iter().map(|c| c.operation).collect();
    assert_eq!(
        operations,
        vec![CommitOp::Create, CommitOp::Update, CommitOp::Create, CommitOp::Delete]
    );
    for (before, after) in snapshot.commits.iter().zip(loaded.commits.iter()) {
        assert_eq!(before.cid().unwrap().as_str(), after.cid().unwrap().as_str());
        assert_eq!(before.signature, after.signature);
        assert_eq!(before.to_bytes().unwrap(), after.to_bytes().unwrap());
        assert!(repo.verify_commit(after).unwrap());
    }
    // The text and the bytes are the same export.
    assert_eq!(snapshot.to_json().unwrap().into_bytes(), snapshot.to_json_bytes().unwrap());
}

#[test]
fn snapshot_of_an_empty_repository() {
    let repo = setup_repo();
    let snapshot = Snapshot::from_repo(&repo).unwrap();
    assert!(snapshot.commits.is_empty());
    let loaded = Snapshot::from_json(&snapshot.to_json().unwrap()).unwrap();
    assert_eq!(loaded.did, "did:plc:test123");
    assert!(loaded.commits.is_empty());
    let log = CommitLog::from_repo(&repo).unwrap();
    assert!(log.commits.is_empty());
    assert_eq!(log.did, "did:plc:test123");
}

#[test]
fn snapshot_with_records_reads_back() {
    let snapshot = Snapshot {
        did: "did:plc:x".to_string(),
        records: vec![Record::new(
            Nsid::new("a.b").unwrap(),
            RecordKey::new("k"),
            object(r#"{"text": "hi"}"#),
        )],
        commits: Vec::new(),
        exported_at: "2025-01-01T00:00:00+00:00".to_string(),
        version: "1.0.0".to_string(),
    };
    let text = snapshot.to_json().unwrap();
    // The text is indented.
    assert!(text.contains("\n  \"did\": \"did:plc:x\""));
    let loaded = Snapshot::from_json(&text).unwrap();
    assert_eq!(loaded.records.len(), 1);
    assert_eq!(loaded.records[0].path(), "a.b/k");
    assert_eq!(loaded.records[0].value, object(r#"{"text": "hi"}"#));
    assert_eq!(loaded.exported_at, "2025-01-01T00:00:00+00:00");
}

#[test]
fn exports_refuse_what_they_cannot_read() {
    for text in ["", "{", "[]", "{}", r#"{"did": "did:plc:x"}"#,
        r#"{"did": 1, "records": [], "commits": [], "exported_at": "t", "version": "v"}"#,
        r#"{"did": "d", "records": {}, "commits": [], "exported_at": "t", "version": "v"}"#,
        r#"{"did": "d", "records": [], "commits": [{}], "exported_at": "t", "version": "v"}"#]
    {
        assert!(matches!(Snapshot::from_json(text), Err(Error::SerializationError(_))), "{}", text);
        assert!(matches!(
            Snapshot::from_json_bytes(text.as_bytes()),
            Err(Error::SerializationError(_))
        ));
        assert!(matches!(RecordSnapshot::from_json(text), Err(Error::SerializationError(_))));
        assert!(matches!(Backup::from_json(text), Err(Error::SerializationError(_))));
    }
    for text in ["", "{", "[]", "{}", r#"{"did": "d", "commits": {}, "exported_at": "t"}"#,
        r#"{"did": "d", "commits": [1], "exported_at": "t"}"#,
        r#"{"did": "d", "commits": []}"#]
    {
        assert!(matches!(CommitLog::from_json(text), Err(Error::SerializationError(_))), "{}", text);
    }
    // Fields that an export does not know are passed over.
    let log = CommitLog::from_json(r#"{"did": "d", "commits": [], "exported_at": "t", "more": 1}"#)
        .unwrap();
    assert_eq!(log.did, "d");
    assert!(log.commits.is_empty());
    let good = r#"{"did": "anything", "records": [], "commits": [], "exported_at": "t", "version": "v"}"#;
    let snapshot = Snapshot::from_json(good).unwrap();
    assert_eq!(snapshot.did, "anything");
    assert_eq!(snapshot.exported_at, "t");
    assert_eq!(snapshot.version, "v");
}

#[test]
fn record_snapshot_carries_the_cid() {
    let record =
        Record::new(Nsid::new("a.b").unwrap(), RecordKey::new("k"), object(r#"{"text": "hi"}"#));
    let snapshot = RecordSnapshot::new(record).unwrap();
    assert_eq!(snapshot.cid, "bafyreie7b995efa755c5ff3b84d2188b58cb4ae916a59470eb3761df8a814f11763500");
    let loaded = RecordSnapshot::from_json(&snapshot.to_json().unwrap()).unwrap();
    assert_eq!(loaded.cid, snapshot.cid);
    assert_eq!(loaded.record.value, snapshot.record.value);
    assert_eq!(loaded.record.path(), "a.b/k");
    assert_eq!(loaded.exported_at, snapshot.exported_at);
}

#[test]
fn backup_json_reads_back_and_checks_the_owner() {
    let text = r#"{"version": "1.0", "did": "did:plc:x", "keypair": [1, 2, 3], "commits": [], "records": [], "timestamp": "2025-01-01T00:00:00Z"}"#;
    let backup = Backup::from_json(text).unwrap();
    assert_eq!(backup.version, "1.0");
    assert_eq!(backup.did.as_str(), "did:plc:x");
    assert_eq!(backup.keypair, vec![1, 2, 3]);
    assert_eq!(backup.timestamp.secs(), 1_735_689_600);
    let again = Backup::from_json(&backup.to_json().unwrap()).unwrap();
    assert_eq!(again.keypair, vec![1, 2, 3]);
    assert_eq!(again.timestamp.secs(), 1_735_689_600);

    let bad_owner = text.replace("did:plc:x", "plc:x");
    assert!(matches!(Backup::from_json(&bad_owner), Err(Error::SerializationError(_))));
    let bad_key = text.replace("[1, 2, 3]", "[1, 2, 300]");
    assert!(matches!(Backup::from_json(&bad_key), Err(Error::SerializationError(_))));
    let no_key = text.replace("[1, 2, 3]", "null");
    assert!(matches!(Backup::from_json(&no_key), Err(Error::SerializationError(_))));
}

#[test]
fn every_export_is_stamped_with_a_time() {
    let mut repo = setup_repo();
    let collection = Nsid::new("app.bsky.feed.post").unwrap();
    repo.create_record(collection.clone(), RecordKey::new("one"), object(r#"{"text": "hello"}"#)).unwrap();

    let snapshot = Snapshot::from_repo(&repo).unwrap();
    let log = CommitLog::from_repo(&repo).unwrap();
    let record = Record::new(collection, RecordKey::new("two"), object(r#"{"text": "again"}"#));
    let single = RecordSnapshot::new(record).unwrap();
    for text in [&snapshot.exported_at, &log.exported_at, &single.exported_at] {
        let read = chrono::DateTime::parse_from_rfc3339(text).unwrap();
        assert_eq!(&read.to_rfc3339(), text);
    }
    let backup = repo.backup().unwrap();
    assert!(chrono::DateTime::parse_from_rfc3339(&backup.timestamp.to_rfc3339()).is_ok());
}
