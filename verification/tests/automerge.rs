use automerge::transaction::Transactable;
use automerge::{ObjType, ScalarValue, ROOT};
use pds_core::automerge_wrapper::AutomergeDoc;
use pds_core::crdt::Scalar;
use pds_core::error::Error;

fn json(text: &str) -> serde_json::Value {
    serde_json::from_str(text).unwrap()
}

#[test]
fn test_create_and_update() {
    let mut doc = AutomergeDoc::new();

    let value = json(r#"{"name": "Alice", "age": 30, "active": true}"#);

    doc.update(&value).unwrap();
    let result = doc.to_json().unwrap();

    assert_eq!(result["name"], "Alice");
    assert_eq!(result["age"], 30);
    assert_eq!(result["active"], true);
}

#[test]
fn test_from_json() {
    let value = json(r#"{"title": "Test Post", "content": "Hello world!", "likes": 42}"#);

    let doc = AutomergeDoc::from_json(&value).unwrap();
    let result = doc.to_json().unwrap();

    assert_eq!(result["title"], "Test Post");
    assert_eq!(result["content"], "Hello world!");
    assert_eq!(result["likes"], 42);
}

#[test]
fn test_save_and_load() {
    let value = json(r#"{"data": "test", "count": 123}"#);

    let doc = AutomergeDoc::from_json(&value).unwrap();
    let bytes = doc.save();

    let loaded = AutomergeDoc::load(&bytes).unwrap();
    let result = loaded.to_json().unwrap();

    assert_eq!(result["data"], "test");
    assert_eq!(result["count"], 123);
}

#[test]
fn test_merge() {
    // Create first document
    let mut doc1 = AutomergeDoc::from_json(&json(r#"{"name": "Alice", "score": 100}"#)).unwrap();

    // Create second document with different field
    let mut doc2 = AutomergeDoc::from_json(&json(r#"{"name": "Alice", "level": 5}"#)).unwrap();

    // Merge doc2 into doc1
    doc1.merge(&mut doc2).unwrap();

    let result = doc1.to_json().unwrap();

    // Both fields should be present after merge
    assert!(
        result.get("name").is_some()
            || result.get("score").is_some()
            || result.get("level").is_some()
    );
}

#[test]
fn test_nested_objects() {
    let value = json(
        r#"{"user": {"name": "Bob", "profile": {"bio": "Developer", "age": 25}}}"#,
    );

    let doc = AutomergeDoc::from_json(&value).unwrap();
    let result = doc.to_json().unwrap();

    assert_eq!(result["user"]["name"], "Bob");
    assert_eq!(result["user"]["profile"]["bio"], "Developer");
    assert_eq!(result["user"]["profile"]["age"], 25);
}

#[test]
fn test_arrays() {
    let value = json(r#"{"tags": ["rust", "wasm", "atproto"], "counts": [1, 2, 3, 4, 5]}"#);

    let doc = AutomergeDoc::from_json(&value).unwrap();
    let result = doc.to_json().unwrap();

    assert!(result["tags"].is_array());
    assert!(result["counts"].is_array());
}

#[test]
fn new_document_is_the_empty_object() {
    assert_eq!(AutomergeDoc::new().to_json().unwrap(), json("{}"));
    assert_eq!(AutomergeDoc::default().to_json().unwrap(), json("{}"));
    let loaded = AutomergeDoc::load(&AutomergeDoc::new().save()).unwrap();
    assert_eq!(loaded.to_json().unwrap(), json("{}"));
}

#[test]
fn scalars_survive_save_and_load_exactly() {
    let value = json(r#"{"a": 1, "b": "x"}"#);
    let doc = AutomergeDoc::from_json(&value).unwrap();
    let loaded = AutomergeDoc::load(&doc.save()).unwrap();
    assert_eq!(loaded.to_json().unwrap(), value);

    let wide = json(
        r#"{"s": "", "t": "text", "zero": 0, "neg": -7, "max": 9223372036854775807, "min": -9223372036854775808, "yes": true, "no": false, "half": 0.5, "big": 1e300}"#,
    );
    let doc = AutomergeDoc::from_json(&wide).unwrap();
    let loaded = AutomergeDoc::load(&doc.save()).unwrap();
    assert_eq!(loaded.to_json().unwrap(), wide);
}

#[test]
fn nested_values_do_not_survive_without_the_cache() {
    // Accepted limit of fidelity: objects, arrays and null live in the
    // cache alone. After save and load only the scalars are left.
    let value = json(r#"{"nested": {"a": 1}}"#);
    let doc = AutomergeDoc::from_json(&value).unwrap();
    assert_eq!(doc.to_json().unwrap(), value);
    let loaded = AutomergeDoc::load(&doc.save()).unwrap();
    assert_eq!(loaded.to_json().unwrap(), json("{}"));

    let mixed = json(r#"{"keep": 1, "list": [1, 2], "nothing": null, "deep": {"x": "y"}}"#);
    let loaded = AutomergeDoc::load(&AutomergeDoc::from_json(&mixed).unwrap().save()).unwrap();
    assert_eq!(loaded.to_json().unwrap(), json(r#"{"keep": 1}"#));
}

#[test]
fn an_integer_beyond_64_signed_bits_becomes_a_float() {
    let value = json(r#"{"huge": 18446744073709551615}"#);
    let loaded = AutomergeDoc::load(&AutomergeDoc::from_json(&value).unwrap().save()).unwrap();
    let back = loaded.to_json().unwrap();
    assert!(back["huge"].is_f64());
    assert_eq!(back["huge"].as_f64().unwrap(), 18446744073709551615u64 as f64);
}

#[test]
fn a_value_that_is_no_object_writes_nothing() {
    for text in ["[1, 2]", "\"s\"", "3", "null"] {
        let value = json(text);
        let doc = AutomergeDoc::from_json(&value).unwrap();
        assert_eq!(doc.to_json().unwrap(), value);
        let loaded = AutomergeDoc::load(&doc.save()).unwrap();
        assert_eq!(loaded.to_json().unwrap(), json("{}"));
    }
}

#[test]
fn update_replaces_the_cache_and_keeps_stale_scalars() {
    let mut doc = AutomergeDoc::from_json(&json(r#"{"a": 1, "b": "x"}"#)).unwrap();
    doc.update(&json(r#"{"a": 2, "c": true, "d": [1]}"#)).unwrap();
    // The cache is the new value, as it is.
    assert_eq!(doc.to_json().unwrap(), json(r#"{"a": 2, "c": true, "d": [1]}"#));
    // The CRDT keeps `b`, which the new value lacks, and never held `d`.
    let loaded = AutomergeDoc::load(&doc.save()).unwrap();
    assert_eq!(loaded.to_json().unwrap(), json(r#"{"a": 2, "b": "x", "c": true}"#));
}

#[test]
fn load_refuses_bytes_that_hold_no_document() {
    match AutomergeDoc::load(b"definitely not a document") {
        Err(Error::AutomergeError(m)) => assert!(m.starts_with("Failed to load document: ")),
        other => panic!("unexpected: {:?}", other.map(|_| ())),
    }
}

#[test]
fn merge_drops_the_cache_and_combines_the_fields() {
    let mut one = AutomergeDoc::from_json(&json(r#"{"name": "Alice", "score": 100, "deep": {"x": 1}}"#)).unwrap();
    let mut two = AutomergeDoc::from_json(&json(r#"{"level": 5}"#)).unwrap();
    one.merge(&mut two).unwrap();
    // The cache is gone: the nested object with it.
    assert_eq!(one.to_json().unwrap(), json(r#"{"name": "Alice", "score": 100, "level": 5}"#));
    // The other document keeps its cache.
    assert_eq!(two.to_json().unwrap(), json(r#"{"level": 5}"#));
}

#[test]
fn changes_carry_a_document_to_a_peer() {
    let source = AutomergeDoc::from_json(&json(r#"{"a": 1, "b": "x"}"#)).unwrap();
    let mut peer = AutomergeDoc::new();
    assert!(peer.get_heads().is_empty());
    assert!(!source.get_heads().is_empty());

    let changes = source.get_changes(&peer.get_heads());
    assert_eq!(changes.len(), 1);
    peer.apply_changes(changes.clone()).unwrap();
    assert_eq!(peer.to_json().unwrap(), json(r#"{"a": 1, "b": "x"}"#));
    assert_eq!(peer.get_heads(), source.get_heads());

    // Applying them again changes nothing, and nothing is left to send.
    peer.apply_changes(changes).unwrap();
    assert_eq!(peer.to_json().unwrap(), json(r#"{"a": 1, "b": "x"}"#));
    assert!(source.get_changes(&peer.get_heads()).is_empty());
}

#[test]
fn scalars_as_json() {
    let as_json = |s: Scalar| AutomergeDoc::scalar_to_json(&s);
    assert_eq!(as_json(Scalar::Bytes(b"hello".to_vec())), json("\"aGVsbG8=\""));
    assert_eq!(as_json(Scalar::Bytes(Vec::new())), json("\"\""));
    assert_eq!(as_json(Scalar::Str("text".to_string())), json("\"text\""));
    assert_eq!(as_json(Scalar::Int(-5)), json("-5"));
    assert_eq!(as_json(Scalar::Int(5)), json("5"));
    assert_eq!(as_json(Scalar::Uint(u64::MAX)), json("18446744073709551615"));
    assert_eq!(as_json(Scalar::F64(Some(json("1.5")))), json("1.5"));
    assert_eq!(as_json(Scalar::F64(None)), json("null"));
    assert_eq!(as_json(Scalar::F64(Some(json("\"no number\"")))), json("null"));
    assert_eq!(as_json(Scalar::Counter), json("0"));
    assert_eq!(as_json(Scalar::Timestamp(1_700_000_000_000)), json("1700000000000"));
    assert_eq!(as_json(Scalar::Boolean(true)), json("true"));
    assert_eq!(as_json(Scalar::Unknown), json("null"));
    assert_eq!(as_json(Scalar::Null), json("null"));
}

#[test]
fn a_copy_is_a_document_of_its_own() {
    let mut doc = AutomergeDoc::from_json(&json(r#"{"a": 1}"#)).unwrap();
    let copy = doc.clone();
    doc.update(&json(r#"{"a": 2}"#)).unwrap();
    assert_eq!(copy.to_json().unwrap(), json(r#"{"a": 1}"#));
    assert_eq!(AutomergeDoc::load(&copy.save()).unwrap().to_json().unwrap(), json(r#"{"a": 1}"#));
    assert_eq!(AutomergeDoc::load(&doc.save()).unwrap().to_json().unwrap(), json(r#"{"a": 2}"#));
}

#[test]
fn every_kind_of_scalar_reads_as_json() {
    let mut doc = automerge::Automerge::new();
    let mut tx = doc.transaction();
    tx.put(ROOT, "bytes", ScalarValue::Bytes(vec![1, 2, 3])).unwrap();
    tx.put(ROOT, "text", "hello").unwrap();
    tx.put(ROOT, "int", -3i64).unwrap();
    tx.put(ROOT, "uint", ScalarValue::Uint(7)).unwrap();
    tx.put(ROOT, "float", 2.5).unwrap();
    tx.put(ROOT, "nan", f64::NAN).unwrap();
    tx.put(ROOT, "infinite", f64::INFINITY).unwrap();
    tx.put(ROOT, "counter", ScalarValue::counter(41)).unwrap();
    tx.put(ROOT, "time", ScalarValue::Timestamp(1_700_000_000_000)).unwrap();
    tx.put(ROOT, "flag", true).unwrap();
    tx.put(ROOT, "nothing", ScalarValue::Null).unwrap();
    tx.put_object(ROOT, "nested", ObjType::Map).unwrap();
    tx.put_object(ROOT, "list", ObjType::List).unwrap();
    tx.commit();

    let loaded = AutomergeDoc::load(&doc.save()).unwrap();
    let expected = json(
        r#"{
            "bytes": "AQID",
            "text": "hello",
            "int": -3,
            "uint": 7,
            "float": 2.5,
            "nan": null,
            "infinite": null,
            "counter": 0,
            "time": 1700000000000,
            "flag": true,
            "nothing": null,
            "nested": null,
            "list": null
        }"#,
    );
    assert_eq!(loaded.to_json().unwrap(), expected);
}

#[test]
fn a_new_document_has_no_heads_and_no_changes() {
    let doc = AutomergeDoc::new();
    assert!(doc.get_heads().is_empty());
    assert!(doc.get_changes(&[]).is_empty());
    let elsewhere = AutomergeDoc::from_json(&json(r#"{"a": 1}"#)).unwrap();
    assert!(doc.get_changes(&elsewhere.get_heads()).is_empty());
}

#[test]
fn heads_and_changes_depend_on_the_document_alone() {
    let doc = AutomergeDoc::from_json(&json(r#"{"a": 1}"#)).unwrap();
    assert_eq!(doc.get_heads().len(), 1);
    assert_eq!(doc.get_heads(), doc.get_heads());
    let first: Vec<Vec<u8>> = doc.get_changes(&[]).iter().map(|c| c.raw_bytes().to_vec()).collect();
    let again: Vec<Vec<u8>> = doc.get_changes(&[]).iter().map(|c| c.raw_bytes().to_vec()).collect();
    assert_eq!(first, again);
    assert_eq!(first.len(), 1);
    // Nothing is left to send to a peer that has the heads.
    assert!(doc.get_changes(&doc.get_heads()).is_empty());

    let copy = doc.clone();
    assert_eq!(copy.get_heads(), doc.get_heads());
    let copied: Vec<Vec<u8>> =
        copy.get_changes(&[]).iter().map(|c| c.raw_bytes().to_vec()).collect();
    assert_eq!(copied, first);
}

#[test]
fn a_value_with_nothing_to_write_always_makes_a_document() {
    for text in ["{}", r#"{"list": [1], "deep": {"x": 1}, "nothing": null}"#, "[1, 2]", "7", "null"] {
        let value = json(text);
        let mut doc = AutomergeDoc::from_json(&value).unwrap();
        assert!(doc.get_heads().is_empty());
        doc.update(&value).unwrap();
        assert!(doc.get_heads().is_empty());
        assert_eq!(doc.to_json().unwrap(), value);
    }
}

#[test]
fn update_of_a_scalar_is_taken_and_the_stale_field_stays() {
    let mut doc = AutomergeDoc::from_json(&json(r#"{"a": 1, "b": "x"}"#)).unwrap();
    assert!(doc.update(&json(r#"{"a": 2}"#)).is_ok());
    assert_eq!(doc.to_json().unwrap(), json(r#"{"a": 2}"#));
    let loaded = AutomergeDoc::load(&doc.save()).unwrap();
    assert_eq!(loaded.to_json().unwrap(), json(r#"{"a": 2, "b": "x"}"#));
}

#[test]
fn every_key_and_every_scalar_is_written() {
    let value = json(
        r#"{"": 1, " ": "space", "a/b": true, "ключ": 0.25, "long key with many words": -1}"#,
    );
    let doc = AutomergeDoc::from_json(&value).unwrap();
    assert_eq!(AutomergeDoc::load(&doc.save()).unwrap().to_json().unwrap(), value);
    // Writing what is there already changes nothing and succeeds.
    let mut again = doc.clone();
    again.update(&value).unwrap();
    assert_eq!(AutomergeDoc::load(&again.save()).unwrap().to_json().unwrap(), value);
    assert_eq!(again.get_heads(), doc.get_heads());
}

#[test]
fn merge_and_apply_depend_on_the_documents_alone() {
    let left = AutomergeDoc::from_json(&json(r#"{"name": "Alice", "score": 100}"#)).unwrap();
    let right = AutomergeDoc::from_json(&json(r#"{"name": "Bob", "level": 5}"#)).unwrap();

    let merged = |a: &AutomergeDoc, b: &AutomergeDoc| {
        let mut a = a.clone();
        let mut b = b.clone();
        a.merge(&mut b).unwrap();
        // The other document is as it was.
        assert_eq!(b.to_json().unwrap(), right.to_json().unwrap());
        AutomergeDoc::load(&a.save()).unwrap().to_json().unwrap()
    };
    let once = merged(&left, &right);
    let twice = merged(&left, &right);
    assert_eq!(once, twice);
    assert_eq!(once["score"], 100);
    assert_eq!(once["level"], 5);
    assert!(once["name"] == "Alice" || once["name"] == "Bob");

    let applied = |a: &AutomergeDoc| {
        let mut a = a.clone();
        a.apply_changes(right.get_changes(&[])).unwrap();
        AutomergeDoc::load(&a.save()).unwrap().to_json().unwrap()
    };
    assert_eq!(applied(&left), applied(&left));
    assert_eq!(applied(&left), once);

    // Merging a document into itself, or an empty one into it, keeps it.
    let mut same = left.clone();
    let mut copy = left.clone();
    same.merge(&mut copy).unwrap();
    assert_eq!(same.to_json().unwrap(), json(r#"{"name": "Alice", "score": 100}"#));
    let mut kept = left.clone();
    kept.merge(&mut AutomergeDoc::new()).unwrap();
    assert_eq!(kept.to_json().unwrap(), json(r#"{"name": "Alice", "score": 100}"#));
    kept.apply_changes(Vec::new()).unwrap();
    assert_eq!(kept.to_json().unwrap(), json(r#"{"name": "Alice", "score": 100}"#));
}

#[test]
fn a_float_replaces_a_float() {
    let mut doc = AutomergeDoc::from_json(&json(r#"{"a": 1.5, "b": 0.0}"#)).unwrap();
    doc.update(&json(r#"{"a": 2.5, "b": 0.25}"#)).unwrap();
    let loaded = AutomergeDoc::load(&doc.save()).unwrap();
    assert_eq!(loaded.to_json().unwrap(), json(r#"{"a": 2.5, "b": 0.25}"#));
}

#[test]
fn a_zero_put_onto_the_other_zero_is_still_a_zero() {
    let mut object = serde_json::Map::new();
    object.insert("a".to_string(), serde_json::Value::from(-0.0_f64));
    let negative = serde_json::Value::Object(object);

    let mut doc = AutomergeDoc::from_json(&json(r#"{"a": 0.0, "n": 1}"#)).unwrap();
    assert!(doc.update(&negative).is_ok());
    // The cache is the value as it was given.
    assert!(doc.to_json().unwrap()["a"].as_f64().unwrap().is_sign_negative());
    // The field is a float zero, and the other field is as it was.
    let loaded = AutomergeDoc::load(&doc.save()).unwrap().to_json().unwrap();
    assert_eq!(loaded["a"].as_f64(), Some(0.0));
    assert_eq!(loaded["n"], 1);
    assert_eq!(loaded.as_object().unwrap().len(), 2);

    // A document made of the negative zero holds the negative zero.
    let made = AutomergeDoc::from_json(&negative).unwrap();
    let read = AutomergeDoc::load(&made.save()).unwrap().to_json().unwrap();
    assert_eq!(read["a"].as_f64(), Some(0.0));
    assert!(read["a"].as_f64().unwrap().is_sign_negative());
}

#[test]
fn the_error_of_the_crdt_becomes_an_automerge_error_with_its_text() {
    let text = automerge::Automerge::load(&[1, 2, 3]).unwrap_err().to_string();
    assert!(!text.is_empty());
    let error = Error::from(automerge::Automerge::load(&[1, 2, 3]).unwrap_err());
    match &error {
        Error::AutomergeError(m) => assert_eq!(m, &text),
        other => panic!("unexpected: {:?}", other),
    }
    assert_eq!(error.to_string(), format!("Automerge error: {}", text));
    // The document's own loading names what it was doing.
    match AutomergeDoc::load(&[1, 2, 3]) {
        Err(Error::AutomergeError(m)) => {
            assert_eq!(m, format!("Failed to load document: {}", text))
        },
        other => panic!("unexpected: {:?}", other.map(|_| ())),
    }
}
