use pds_core::error::Error;
use pds_core::records::keys::{
    collection_prefix, commit_key, record_key, COMMITS_PREFIX, HEAD_KEY, RECORDS_PREFIX,
};
use pds_core::time::Timestamp;
use pds_core::types::{Cid, Commit, CommitOp, Did, Nsid, Record, RecordKey};

fn object(text: &str) -> serde_json::Value {
    serde_json::from_str(text).unwrap()
}

#[test]
fn test_did_creation() {
    let did = Did::new("did:plc:test123").unwrap();
    assert_eq!(did.as_str(), "did:plc:test123");

    let invalid = Did::new("invalid");
    assert!(invalid.is_err());
}

#[test]
fn test_cid_creation() {
    let data = b"hello world";
    let cid = Cid::from_bytes(data);
    assert!(cid.as_str().starts_with("bafy"));
}

#[test]
fn test_nsid_creation() {
    let nsid = Nsid::new("app.bsky.feed.post").unwrap();
    assert_eq!(nsid.as_str(), "app.bsky.feed.post");

    let invalid = Nsid::new("invalid");
    assert!(invalid.is_err());
}

#[test]
fn test_record_creation() {
    let collection = Nsid::new("app.bsky.feed.post").unwrap();
    let rkey = RecordKey::generate();
    let value = object(r#"{"text": "Hello world!", "createdAt": "2025-01-01T00:00:00Z"}"#);

    let record = Record::new(collection, rkey, value);
    assert!(record.validate().is_ok());
    assert!(record.cid().is_ok());
}

#[test]
fn test_commit_creation() {
    let did = Did::new("did:plc:test").unwrap();
    let collection = Nsid::new("app.bsky.feed.post").unwrap();
    let rkey = RecordKey::new("test123");
    let record_cid = Cid::from_bytes(b"test data");

    let commit = Commit::new(did, CommitOp::Create, collection, rkey, Some(record_cid), None);

    assert!(commit.validate().is_ok());
    assert!(commit.cid().is_ok());
}

#[test]
fn test_commit_validation() {
    let did = Did::new("did:plc:test").unwrap();
    let collection = Nsid::new("app.bsky.feed.post").unwrap();
    let rkey = RecordKey::new("test123");

    // Create without record_cid should fail validation
    let invalid_commit = Commit::new(
        did.clone(),
        CommitOp::Create,
        collection.clone(),
        rkey.clone(),
        None,
        None,
    );
    assert!(invalid_commit.validate().is_err());

    // Delete can be without record_cid
    let delete_commit = Commit::new(did, CommitOp::Delete, collection, rkey, None, None);
    assert!(delete_commit.validate().is_ok());
}

#[test]
fn did_rejection_names_the_input() {
    match Did::new("plc:nope") {
        Err(Error::InvalidDid(m)) => {
            assert_eq!(m, "DID must start with 'did:' prefix: plc:nope")
        }
        other => panic!("unexpected: {:?}", other),
    }
    assert!(Did::new("").is_err());
    assert!(Did::new("did").is_err());
    assert_eq!(Did::new("did:").unwrap().as_str(), "did:");
    assert!(Did::new("DID:plc:x").is_err());
}

#[test]
fn cid_from_string_checks_the_tag() {
    assert_eq!(Cid::from_string("bafyabc").unwrap().as_str(), "bafyabc");
    assert_eq!(Cid::from_string("bafy").unwrap().as_str(), "bafy");
    match Cid::from_string("Qm123") {
        Err(Error::InvalidCid(m)) => assert_eq!(m, "Invalid CID format: Qm123"),
        other => panic!("unexpected: {:?}", other),
    }
    assert!(Cid::from_string("baf").is_err());
    assert!(Cid::from_string("").is_err());
}

#[test]
fn cid_from_bytes_is_the_digest_in_hex() {
    assert_eq!(
        Cid::from_bytes(b"hello world").as_str(),
        "bafyreib94d27b9934d3e08a52e52d7da7dabfac484efe37a5380ee9088f7ace2efcde9"
    );
    assert_eq!(
        Cid::from_bytes(b"").as_str(),
        "bafyreie3b0c44298fc1c149afbf4c8996fb92427ae41e4649b934ca495991b7852b855"
    );
    for data in [&b""[..], &b"x"[..], &b"hello world"[..], &[0u8; 1000][..]] {
        assert_eq!(Cid::from_bytes(data).as_str().len(), 71);
    }
    // Equal bytes, equal CIDs; other bytes, another CID.
    assert_eq!(Cid::from_bytes(b"abc").as_str(), Cid::from_bytes(b"abc").as_str());
    assert_ne!(Cid::from_bytes(b"abc").as_str(), Cid::from_bytes(b"abd").as_str());
    // What was derived is accepted as text.
    let derived = Cid::from_bytes(b"abc");
    assert_eq!(Cid::from_string(derived.as_str()).unwrap().as_str(), derived.as_str());
}

#[test]
fn nsid_needs_a_dot() {
    match Nsid::new("nodots") {
        Err(Error::ValidationError(m)) => assert_eq!(m, "Invalid NSID format: nodots"),
        other => panic!("unexpected: {:?}", other),
    }
    assert!(Nsid::new("").is_err());
    assert_eq!(Nsid::new(".").unwrap().as_str(), ".");
    assert_eq!(Nsid::new("a.b").unwrap().as_str(), "a.b");
}

#[test]
fn record_key_generation() {
    assert_eq!(RecordKey::new("self").as_str(), "self");
    assert_eq!(RecordKey::new("a/b. c").as_str(), "a/b. c");

    let t = Timestamp::new(1, 5_000).unwrap();
    assert_eq!(RecordKey::from_timestamp(&t).as_str(), "tid_0000000000001000005");
    let epoch = Timestamp::new(0, 0).unwrap();
    assert_eq!(RecordKey::from_timestamp(&epoch).as_str(), "tid_0000000000000000000");
    let now = Timestamp::new(1_700_000_000, 123_456_789).unwrap();
    assert_eq!(RecordKey::from_timestamp(&now).as_str(), "tid_0001700000000123456");
    // Before the epoch: a minus sign, and digits that count up towards it.
    let before = Timestamp::new(-1, 0).unwrap();
    assert_eq!(RecordKey::from_timestamp(&before).as_str(), "tid_-9223372036853775808");
    let just_before = Timestamp::new(-1, 999_999_000).unwrap();
    assert_eq!(RecordKey::from_timestamp(&just_before).as_str(), "tid_-9223372036854775807");

    let generated = RecordKey::generate();
    assert!(generated.as_str().starts_with("tid_"));
    assert_eq!(generated.as_str().len(), 23);
    assert!(generated.as_str()[4..].parse::<i64>().unwrap() > 0);
}

#[test]
fn generated_keys_sort_as_their_times() {
    let times = [
        (-62_167_219_201i64, 0u32),
        (-2, 0),
        (-1, 0),
        (-1, 999_999_000),
        (0, 0),
        (0, 9_000),
        (0, 10_000),
        (0, 99_000),
        (0, 100_000),
        (1, 0),
        (999, 999_999_000),
        (1_000, 0),
        (1_700_000_000, 1_000),
        (1_700_000_000, 2_000),
        (253_402_300_800, 0),
        (8_210_266_876_799, 999_999_000),
    ];
    let keys: Vec<String> = times
        .iter()
        .map(|(secs, nanos)| {
            RecordKey::from_timestamp(&Timestamp::new(*secs, *nanos).unwrap()).as_str().to_string()
        })
        .collect();
    for pair in keys.windows(2) {
        assert!(pair[0] < pair[1], "{} {}", pair[0], pair[1]);
    }
    // Times of one microsecond have one key.
    let a = RecordKey::from_timestamp(&Timestamp::new(5, 1_000).unwrap());
    let b = RecordKey::from_timestamp(&Timestamp::new(5, 1_999).unwrap());
    assert_eq!(a.as_str(), b.as_str());
    // Later calls never give an earlier key.
    let mut last = RecordKey::generate();
    for _ in 0..1000 {
        let next = RecordKey::generate();
        assert!(last.as_str() <= next.as_str());
        last = next;
    }
}

#[test]
fn record_validation_and_path() {
    let collection = Nsid::new("app.feed.post").unwrap();
    let record = Record::new(collection.clone(), RecordKey::new("post1"), object(r#"{"a": 1}"#));
    assert!(record.validate().is_ok());
    assert_eq!(record.path(), "app.feed.post/post1");

    for text in ["[1, 2]", "\"text\"", "1", "null", "true"] {
        let record = Record::new(collection.clone(), RecordKey::new("k"), object(text));
        match record.validate() {
            Err(Error::ValidationError(m)) => {
                assert_eq!(m, "Record value must be a JSON object")
            }
            other => panic!("unexpected: {:?}", other),
        }
    }
}

#[test]
fn record_cid_is_that_of_the_compact_text() {
    let collection = Nsid::new("app.feed.post").unwrap();
    let record = Record::new(collection.clone(), RecordKey::new("k"), object(r#"{ "text" : "hi" }"#));
    assert_eq!(
        record.cid().unwrap().as_str(),
        "bafyreie7b995efa755c5ff3b84d2188b58cb4ae916a59470eb3761df8a814f11763500"
    );
    // Twice the same.
    assert_eq!(record.cid().unwrap().as_str(), record.cid().unwrap().as_str());
    // The CID is that of the value alone, and the order of the keys does not count.
    let one = Record::new(collection.clone(), RecordKey::new("x"), object(r#"{"a": 1, "b": 2}"#));
    let two = Record::new(collection, RecordKey::new("y"), object(r#"{"b": 2, "a": 1}"#));
    assert_eq!(one.cid().unwrap().as_str(), two.cid().unwrap().as_str());
    assert_ne!(one.cid().unwrap().as_str(), record.cid().unwrap().as_str());
}

fn commit_at_epoch(operation: CommitOp, record_cid: Option<Cid>, prev: Option<Cid>) -> Commit {
    Commit {
        did: Did::new("did:plc:test").unwrap(),
        operation,
        collection: Nsid::new("app.bsky.feed.post").unwrap(),
        rkey: RecordKey::new("k1"),
        record_cid,
        prev,
        timestamp: Timestamp::new(0, 0).unwrap(),
        signature: None,
    }
}

#[test]
fn commit_signing_bytes_are_pinned() {
    let commit = commit_at_epoch(CommitOp::Create, None, None);
    let expected = r#"{"collection":"app.bsky.feed.post","did":"did:plc:test","operation":"Create","prev":null,"record_cid":null,"rkey":"k1","timestamp":"1970-01-01T00:00:00+00:00"}"#;
    assert_eq!(String::from_utf8(commit.signing_bytes().unwrap()).unwrap(), expected);
    assert_eq!(
        commit.cid().unwrap().as_str(),
        "bafyrei01f55a10a6f6758d161393e4026810c5e1ea5150165425108fa455edb9b6e475"
    );

    // The signature is no part of what is signed.
    let mut signed = commit_at_epoch(CommitOp::Create, None, None);
    signed.signature = Some(vec![1, 2, 3]);
    assert_eq!(signed.signing_bytes().unwrap(), commit.signing_bytes().unwrap());
    assert_eq!(signed.cid().unwrap().as_str(), commit.cid().unwrap().as_str());

    // Every other field is.
    let with_prev = commit_at_epoch(CommitOp::Create, None, Some(Cid::from_bytes(b"p")));
    assert_ne!(with_prev.signing_bytes().unwrap(), commit.signing_bytes().unwrap());
    let with_record = commit_at_epoch(CommitOp::Create, Some(Cid::from_bytes(b"r")), None);
    assert_ne!(with_record.signing_bytes().unwrap(), commit.signing_bytes().unwrap());
    let update = commit_at_epoch(CommitOp::Update, None, None);
    assert_ne!(update.signing_bytes().unwrap(), commit.signing_bytes().unwrap());
    let mut later = commit_at_epoch(CommitOp::Create, None, None);
    later.timestamp = Timestamp::new(0, 1).unwrap();
    assert_ne!(later.signing_bytes().unwrap(), commit.signing_bytes().unwrap());
}

#[test]
fn commit_validation_names_the_rule() {
    let update = commit_at_epoch(CommitOp::Update, None, None);
    match update.validate() {
        Err(Error::ValidationError(m)) => {
            assert_eq!(m, "Create/Update commits must have a record CID")
        }
        other => panic!("unexpected: {:?}", other),
    }
    assert!(commit_at_epoch(CommitOp::Update, Some(Cid::from_bytes(b"r")), None).validate().is_ok());
    assert!(commit_at_epoch(CommitOp::Delete, Some(Cid::from_bytes(b"r")), None).validate().is_ok());
}

#[test]
fn commit_stored_form_reads_back() {
    let mut commit = commit_at_epoch(
        CommitOp::Update,
        Some(Cid::from_bytes(b"r")),
        Some(Cid::from_bytes(b"p")),
    );
    commit.signature = Some(vec![0, 1, 254, 255]);
    let bytes = commit.to_bytes().unwrap();
    let text = String::from_utf8(bytes.clone()).unwrap();
    assert!(text.contains(r#""signature":[0,1,254,255]"#));
    assert!(text.contains(r#""timestamp":"1970-01-01T00:00:00Z""#));
    assert!(text.contains(r#""operation":"Update""#));

    let back = Commit::from_bytes(&bytes).unwrap();
    assert_eq!(back.did.as_str(), "did:plc:test");
    assert_eq!(back.operation, CommitOp::Update);
    assert_eq!(back.collection.as_str(), "app.bsky.feed.post");
    assert_eq!(back.rkey.as_str(), "k1");
    assert_eq!(back.record_cid.unwrap().as_str(), Cid::from_bytes(b"r").as_str());
    assert_eq!(back.prev.unwrap().as_str(), Cid::from_bytes(b"p").as_str());
    assert_eq!((back.timestamp.secs(), back.timestamp.nanos()), (0, 0));
    assert_eq!(back.signature, Some(vec![0, 1, 254, 255]));

    let unsigned = commit_at_epoch(CommitOp::Delete, None, None);
    let back = Commit::from_bytes(&unsigned.to_bytes().unwrap()).unwrap();
    assert_eq!(back.operation, CommitOp::Delete);
    assert!(back.record_cid.is_none() && back.prev.is_none() && back.signature.is_none());
}

#[test]
fn commit_stored_form_is_checked() {
    let good = r#"{"did":"did:plc:a","operation":"Create","collection":"a.b","rkey":"k","record_cid":"bafyx","prev":null,"timestamp":"2025-01-01T00:00:00Z","signature":null}"#;
    assert!(Commit::from_bytes(good.as_bytes()).is_ok());
    // Optional fields may be absent.
    let bare = r#"{"did":"did:plc:a","operation":"Delete","collection":"a.b","rkey":"k","timestamp":"2025-01-01T00:00:00Z"}"#;
    assert!(Commit::from_bytes(bare.as_bytes()).is_ok());

    let bad = [
        r#"not json"#,
        r#"[]"#,
        r#"{"did":"plc:a","operation":"Create","collection":"a.b","rkey":"k","timestamp":"2025-01-01T00:00:00Z"}"#,
        r#"{"did":"did:plc:a","operation":"Merge","collection":"a.b","rkey":"k","timestamp":"2025-01-01T00:00:00Z"}"#,
        r#"{"did":"did:plc:a","operation":"Create","collection":"ab","rkey":"k","timestamp":"2025-01-01T00:00:00Z"}"#,
        r#"{"did":"did:plc:a","operation":"Create","collection":"a.b","timestamp":"2025-01-01T00:00:00Z"}"#,
        r#"{"did":"did:plc:a","operation":"Create","collection":"a.b","rkey":"","timestamp":"2025-01-01T00:00:00Z"}"#,
        r#"{"did":"did:plc:a","operation":"Create","collection":"a.b","rkey":"k","timestamp":"soon"}"#,
        r#"{"did":"did:plc:a","operation":"Create","collection":"a.b","rkey":"k","record_cid":"Qm","timestamp":"2025-01-01T00:00:00Z"}"#,
        r#"{"did":"did:plc:a","operation":"Create","collection":"a.b","rkey":"k","prev":7,"timestamp":"2025-01-01T00:00:00Z"}"#,
        r#"{"did":"did:plc:a","operation":"Create","collection":"a.b","rkey":"k","timestamp":"2025-01-01T00:00:00Z","signature":[256]}"#,
        r#"{"did":"did:plc:a","operation":"Create","collection":"a.b","rkey":"k","timestamp":"2025-01-01T00:00:00Z","signature":[-1]}"#,
        r#"{"did":"did:plc:a","operation":"Create","collection":"a.b","rkey":"k","timestamp":"2025-01-01T00:00:00Z","signature":"AAAA"}"#,
    ];
    for text in bad {
        match Commit::from_bytes(text.as_bytes()) {
            Err(Error::SerializationError(_)) => {}
            other => panic!("{} gave {:?}", text, other),
        }
    }
}

#[test]
fn record_stored_form_reads_back() {
    let record = Record {
        collection: Nsid::new("app.feed.post").unwrap(),
        rkey: RecordKey::new("post1"),
        value: object(r#"{"text": "hi", "n": [1, 2.5, null], "deep": {"x": true}}"#),
        created_at: Timestamp::new(1_700_000_000, 250_000_000).unwrap(),
    };
    let bytes = record.to_bytes().unwrap();
    let text = String::from_utf8(bytes.clone()).unwrap();
    assert_eq!(
        text,
        r#"{"collection":"app.feed.post","created_at":"2023-11-14T22:13:20.250Z","rkey":"post1","value":{"deep":{"x":true},"n":[1,2.5,null],"text":"hi"}}"#
    );
    let back = Record::from_bytes(&bytes).unwrap();
    assert_eq!(back.collection.as_str(), "app.feed.post");
    assert_eq!(back.rkey.as_str(), "post1");
    assert_eq!(back.value, record.value);
    assert_eq!(back.created_at.secs(), 1_700_000_000);
    assert_eq!(back.created_at.nanos(), 250_000_000);

    for text in [
        r#"{"collection":"nodot","rkey":"k","value":{},"created_at":"2025-01-01T00:00:00Z"}"#,
        r#"{"collection":"a.b","rkey":"k","created_at":"2025-01-01T00:00:00Z"}"#,
        r#"{"collection":"a.b","rkey":"k","value":{}}"#,
        r#"{"collection":"a.b","rkey":7,"value":{},"created_at":"2025-01-01T00:00:00Z"}"#,
        r#"{"collection":"a.b","rkey":"","value":{},"created_at":"2025-01-01T00:00:00Z"}"#,
        r#"{"#,
    ] {
        match Record::from_bytes(text.as_bytes()) {
            Err(Error::SerializationError(_)) => {}
            other => panic!("{} gave {:?}", text, other),
        }
    }
}

#[test]
fn commit_op_names() {
    assert_eq!(CommitOp::Create.as_str(), "Create");
    assert_eq!(CommitOp::Update.as_str(), "Update");
    assert_eq!(CommitOp::Delete.as_str(), "Delete");
    assert_eq!(CommitOp::from_name("Create"), Some(CommitOp::Create));
    assert_eq!(CommitOp::from_name("Update"), Some(CommitOp::Update));
    assert_eq!(CommitOp::from_name("Delete"), Some(CommitOp::Delete));
    assert_eq!(CommitOp::from_name("create"), None);
    assert_eq!(CommitOp::from_name(""), None);
}

#[test]
fn store_keys() {
    assert_eq!(HEAD_KEY, "head");
    assert_eq!(RECORDS_PREFIX, "record:");
    assert_eq!(COMMITS_PREFIX, "commit:");
    assert_eq!(record_key("app.feed.post", "post1"), "record:app.feed.post/post1");
    assert_eq!(collection_prefix("app.feed.post"), "record:app.feed.post/");
    assert_eq!(commit_key("bafyabc"), "commit:bafyabc");
    let record = Record::new(
        Nsid::new("app.feed.post").unwrap(),
        RecordKey::new("post1"),
        object("{}"),
    );
    assert_eq!(record_key("app.feed.post", "post1"), format!("record:{}", record.path()));
    assert!(record_key("app.feed.post", "post1").starts_with(&collection_prefix("app.feed.post")));
}

#[test]
fn error_texts() {
    let cases = [
        (Error::InvalidRecord("x".to_string()), "Invalid record: x"),
        (Error::InvalidCommit("x".to_string()), "Invalid commit: x"),
        (Error::InvalidDid("x".to_string()), "Invalid DID: x"),
        (Error::InvalidCid("x".to_string()), "Invalid CID: x"),
        (Error::RepositoryError("x".to_string()), "Repository error: x"),
        (Error::AutomergeError("x".to_string()), "Automerge error: x"),
        (Error::SerializationError("x".to_string()), "Serialization error: x"),
        (Error::StorageError("x".to_string()), "Storage error: x"),
        (Error::CryptoError("x".to_string()), "Crypto error: x"),
        (Error::NotFound("x".to_string()), "Not found: x"),
        (Error::ValidationError("x".to_string()), "Validation error: x"),
    ];
    for (error, text) in cases {
        assert_eq!(error.to_string(), text);
        assert_eq!(error.message(), "x");
    }
}

#[test]
fn identifiers_compare_by_their_text() {
    assert!(Did::new("did:plc:a").unwrap() == Did::new("did:plc:a").unwrap());
    assert!(Did::new("did:plc:a").unwrap() != Did::new("did:plc:b").unwrap());
    assert!(Cid::from_bytes(b"x") == Cid::from_bytes(b"x"));
    assert!(Cid::from_bytes(b"x") != Cid::from_bytes(b"y"));
    assert!(Nsid::new("a.b").unwrap() == Nsid::new("a.b").unwrap());
    assert!(Nsid::new("a.b").unwrap() != Nsid::new("a.c").unwrap());
    assert!(RecordKey::new("k") == RecordKey::new("k"));
    assert!(RecordKey::new("k") != RecordKey::new("l"));
    let did = Did::new("did:plc:a").unwrap();
    assert!(did.clone() == did);

    let mut set = std::collections::HashSet::new();
    set.insert(RecordKey::new("k"));
    set.insert(RecordKey::new("k"));
    set.insert(RecordKey::new("l"));
    assert_eq!(set.len(), 2);
}

#[test]
fn copies_hold_what_was_copied() {
    let record = Record::new(
        Nsid::new("a.b").unwrap(),
        RecordKey::new("k"),
        object(r#"{"text": "hi", "n": [1, 2]}"#),
    );
    let copy = record.clone();
    assert_eq!(copy.path(), record.path());
    assert_eq!(copy.value, record.value);
    assert_eq!(copy.to_bytes().unwrap(), record.to_bytes().unwrap());

    let mut commit = commit_at_epoch(CommitOp::Create, Some(Cid::from_bytes(b"r")), None);
    commit.signature = Some(vec![9, 8, 7]);
    let copy = commit.clone();
    assert_eq!(copy.to_bytes().unwrap(), commit.to_bytes().unwrap());
}

#[test]
fn record_key_try_new_refuses_the_empty_key() {
    assert_eq!(RecordKey::try_new("abc").unwrap().as_str(), "abc");
    assert_eq!(RecordKey::try_new("abc").unwrap(), RecordKey::new("abc"));
    match RecordKey::try_new("") {
        Err(Error::ValidationError(m)) => assert_eq!(m, "Record key must not be empty"),
        other => panic!("unexpected: {:?}", other),
    }
}

#[test]
fn hex_is_two_lower_case_digits_for_each_byte() {
    assert_eq!(pds_core::hash::hex_encode(&[]), "");
    assert_eq!(pds_core::hash::hex_encode(&[0x00, 0x0f, 0xa0, 0xff, 0x9c]), "000fa0ff9c");
    let all: Vec<u8> = (0..=255).collect();
    assert_eq!(pds_core::hash::hex_encode(&all), hex::encode(&all));
}

#[test]
fn a_cid_holds_the_whole_digest() {
    let cid = Cid::from_bytes(b"hello world");
    assert_eq!(cid.as_str().len(), 71);
    assert_eq!(
        cid.as_str(),
        format!("bafyrei{}", hex::encode(<sha2::Sha256 as sha2::Digest>::digest(b"hello world")))
    );
    // Two inputs whose digests agree in their first digits still differ.
    assert_ne!(Cid::from_bytes(b"a"), Cid::from_bytes(b"b"));
}
