use pds_core::error::Error;
use pds_core::time::Timestamp;
use pds_core::traits::{Clock, Crypto, Ed25519Crypto, KvStore, MemoryKvStore, SystemClock};

#[test]
fn test_memory_kvstore() {
    let mut store = MemoryKvStore::new();

    // Test put and get
    store.put("key1", b"value1").unwrap();
    let value = store.get("key1").unwrap();
    assert_eq!(value, Some(b"value1".to_vec()));

    // Test exists
    assert!(store.exists_key("key1").unwrap());
    assert!(!store.exists_key("key2").unwrap());

    // Test delete
    store.delete("key1").unwrap();
    assert!(!store.exists_key("key1").unwrap());

    // Test list_keys
    store.put("prefix:key1", b"val1").unwrap();
    store.put("prefix:key2", b"val2").unwrap();
    store.put("other:key", b"val3").unwrap();

    let keys = store.list_keys("prefix:").unwrap();
    assert_eq!(keys.len(), 2);
}

#[test]
fn test_system_clock() {
    let clock = SystemClock;
    let now = clock.now();
    assert!(now.secs() > 0);
}

#[test]
fn test_ed25519_crypto() {
    let crypto = Ed25519Crypto::new();

    // Test signing and verification
    let data = b"test message";
    let signature = crypto.sign(data).unwrap();
    let public_key = crypto.public_key();

    assert!(crypto.verify(data, &signature, &public_key).unwrap());

    // Wrong data should fail verification
    let wrong_data = b"wrong message";
    assert!(!crypto.verify(wrong_data, &signature, &public_key).unwrap());
}

#[test]
fn test_wasm_crypto_creation() {
    let crypto = Ed25519Crypto::new();
    let data = b"test message";
    let signature = crypto.sign(data).unwrap();
    let public_key = crypto.public_key();
    assert!(crypto.verify(data, &signature, &public_key).unwrap());
}

#[test]
fn memory_store_replaces_and_lists_exactly() {
    let mut store = MemoryKvStore::new();
    assert_eq!(store.get("a").unwrap(), None);
    store.put("a", b"1").unwrap();
    store.put("a", b"2").unwrap();
    assert_eq!(store.get("a").unwrap(), Some(b"2".to_vec()));
    store.put("ab", b"3").unwrap();
    store.put("b", b"4").unwrap();

    let mut keys = store.list_keys("a").unwrap();
    keys.sort();
    assert_eq!(keys, vec!["a".to_string(), "ab".to_string()]);

    let mut all = store.list_keys("").unwrap();
    all.sort();
    assert_eq!(all, vec!["a".to_string(), "ab".to_string(), "b".to_string()]);

    // Deleting an absent key changes nothing.
    store.delete("zzz").unwrap();
    assert_eq!(store.list_keys("").unwrap().len(), 3);

    store.delete("a").unwrap();
    assert_eq!(store.get("a").unwrap(), None);
    assert_eq!(store.get("ab").unwrap(), Some(b"3".to_vec()));
    assert_eq!(store.list_keys("a").unwrap(), vec!["ab".to_string()]);
}

#[test]
fn memory_store_default_is_empty() {
    let store = MemoryKvStore::default();
    assert!(store.list_keys("").unwrap().is_empty());
}

fn rfc8032_seed() -> [u8; 32] {
    let bytes = hex::decode("9d61b19deffd5a60ba844af492ec2cc44449c5697b326919703bac031cae7f60")
        .unwrap();
    bytes.try_into().unwrap()
}

#[test]
fn ed25519_known_vector() {
    let crypto = Ed25519Crypto::from_bytes(&rfc8032_seed());
    assert_eq!(
        hex::encode(crypto.public_key()),
        "d75a980182b10ab7d54bfed3c964073a0ee172f3daa62325af021a68f707511a"
    );
    let signature = crypto.sign(b"").unwrap();
    assert_eq!(
        hex::encode(&signature),
        "e5564300c360ac729086e2cc806e828a84877f1eb8e5d974d873e065224901555fb8821590a33bacc61e39701cf9b46bd25bf5f0595bbe24655141438e7a100b"
    );
    assert_eq!(signature.len(), 64);
    assert!(crypto.verify(b"", &signature, &crypto.public_key()).unwrap());
    assert!(!crypto.verify(b"x", &signature, &crypto.public_key()).unwrap());
}

#[test]
fn ed25519_rejects_malformed_lengths() {
    let crypto = Ed25519Crypto::from_bytes(&rfc8032_seed());
    let signature = crypto.sign(b"data").unwrap();
    let key = crypto.public_key();

    let short_key = crypto.verify(b"data", &signature, &key[..31]);
    assert!(matches!(short_key, Err(Error::CryptoError(ref m)) if m == "Invalid public key"));

    let short_signature = crypto.verify(b"data", &signature[..63], &key);
    assert!(
        matches!(short_signature, Err(Error::CryptoError(ref m)) if m == "Invalid signature")
    );
}

#[test]
fn ed25519_rejects_bytes_that_are_no_key() {
    let crypto = Ed25519Crypto::from_bytes(&rfc8032_seed());
    let signature = crypto.sign(b"data").unwrap();
    let mut refused = 0;
    for first in 0..=255u8 {
        let mut candidate = [0u8; 32];
        candidate[0] = first;
        match crypto.verify(b"data", &signature, &candidate) {
            Err(Error::CryptoError(_)) => refused += 1,
            Err(other) => panic!("unexpected error: {:?}", other),
            Ok(accepted) => assert!(!accepted),
        }
    }
    assert!(refused > 0);
}

#[test]
fn ed25519_other_key_does_not_accept() {
    let alice = Ed25519Crypto::new();
    let bob = Ed25519Crypto::new();
    let signature = alice.sign(b"hello").unwrap();
    assert!(!alice.verify(b"hello", &signature, &bob.public_key()).unwrap());
}

#[test]
fn ed25519_keypair_export_and_import() {
    let first = Ed25519Crypto::from_bytes(&rfc8032_seed());
    let exported = first.export_keypair().unwrap();
    assert_eq!(exported, rfc8032_seed().to_vec());

    let mut other = Ed25519Crypto::new();
    other.import_keypair(&exported).unwrap();
    assert_eq!(other.public_key(), first.public_key());

    let before = other.public_key();
    let refused = other.import_keypair(&exported[..31]);
    assert!(matches!(refused, Err(Error::CryptoError(ref m)) if m == "Invalid keypair length"));
    assert_eq!(other.public_key(), before);
}

#[test]
fn timestamp_texts_and_numbers() {
    let epoch = Timestamp::new(0, 0).unwrap();
    assert_eq!(epoch.to_rfc3339(), "1970-01-01T00:00:00+00:00");
    assert_eq!(epoch.to_stored_text(), "1970-01-01T00:00:00Z");
    assert_eq!(epoch.micros(), 0);

    let later = Timestamp::new(1, 5_000).unwrap();
    assert_eq!(later.secs(), 1);
    assert_eq!(later.nanos(), 5_000);
    assert_eq!(later.micros(), 1_000_005);
    assert_eq!(later.to_stored_text(), "1970-01-01T00:00:01.000005Z");

    let before_epoch = Timestamp::new(-1, 999_999_999).unwrap();
    assert_eq!(before_epoch.micros(), -1);
    assert_eq!(before_epoch.to_rfc3339(), "1969-12-31T23:59:59.999999999+00:00");
}

#[test]
fn timestamp_out_of_range_is_refused() {
    assert!(Timestamp::new(i64::MAX, 0).is_none());
    assert!(Timestamp::new(i64::MIN, 0).is_none());
    assert!(Timestamp::new(0, 2_000_000_000).is_none());
}

#[test]
fn timestamp_range_and_leap_seconds() {
    let (earliest, latest) = (-8_334_601_228_800i64, 8_210_266_876_799i64);
    assert_eq!(
        Timestamp::new(earliest, 0).unwrap().to_rfc3339(),
        "-262143-01-01T00:00:00+00:00"
    );
    assert_eq!(
        Timestamp::new(latest, 0).unwrap().to_rfc3339(),
        "+262142-12-31T23:59:59+00:00"
    );
    assert!(Timestamp::new(earliest - 1, 0).is_none());
    assert!(Timestamp::new(latest + 1, 0).is_none());
    for secs in [earliest, earliest + 59, -61, -1, 0, 58, 59, 60, 119, 86_399, latest - 60, latest]
    {
        for nanos in [0u32, 999_999_999, 1_000_000_000, 1_999_999_999, 2_000_000_000, u32::MAX] {
            let expected =
                nanos < 2_000_000_000 && (nanos < 1_000_000_000 || secs.rem_euclid(60) == 59);
            assert_eq!(Timestamp::new(secs, nanos).is_some(), expected, "{} {}", secs, nanos);
        }
    }
}

#[test]
fn timestamp_parse_reads_what_was_written() {
    let parsed = Timestamp::parse("2025-01-01T00:00:00Z").unwrap();
    assert_eq!(parsed.secs(), 1_735_689_600);
    assert_eq!(parsed.nanos(), 0);

    let with_offset = Timestamp::parse("2025-01-01T01:00:00.5+01:00").unwrap();
    assert_eq!(with_offset.secs(), 1_735_689_600);
    assert_eq!(with_offset.nanos(), 500_000_000);

    let t = Timestamp::new(1_700_000_000, 123_456_789).unwrap();
    let back = Timestamp::parse(&t.to_stored_text()).unwrap();
    assert_eq!((back.secs(), back.nanos()), (t.secs(), t.nanos()));
    let back = Timestamp::parse(&t.to_rfc3339()).unwrap();
    assert_eq!((back.secs(), back.nanos()), (t.secs(), t.nanos()));

    assert!(Timestamp::parse("yesterday").is_none());
    assert!(Timestamp::parse("").is_none());
}

#[test]
fn timestamp_order() {
    let a = Timestamp::new(10, 5).unwrap();
    let b = Timestamp::new(10, 6).unwrap();
    let c = Timestamp::new(11, 0).unwrap();
    assert!(a.is_at_or_before(&a));
    assert!(a.is_at_or_before(&b));
    assert!(!b.is_at_or_before(&a));
    assert!(b.is_at_or_before(&c));
    assert!(!c.is_at_or_before(&a));
}

#[test]
fn stored_text_of_a_time_reads_back() {
    for (secs, nanos) in [
        (0, 0),
        (1_700_000_000, 123_456_789),
        (-1, 999_999_999),
        // The first second of the year 10000, which takes five digits.
        (253_402_300_800, 0),
        // The last second before the year 0000.
        (-62_167_219_201, 0),
        // A leap second.
        (1_483_228_799, 1_500_000_000),
    ] {
        let t = Timestamp::new(secs, nanos).unwrap();
        assert!(t.reads_back(), "{} {}", secs, nanos);
    }
}

#[test]
fn micros_of_the_latest_and_earliest_time() {
    // The latest second that can be represented, found by bisection.
    let (mut low, mut high) = (0i64, i64::MAX);
    while low < high {
        let middle = ((low as i128 + high as i128 + 1) / 2) as i64;
        if Timestamp::new(middle, 0).is_some() {
            low = middle;
        } else {
            high = middle - 1;
        }
    }
    let latest = Timestamp::new(low, 999_999_999).unwrap();
    assert_eq!(latest.micros() as i128, low as i128 * 1_000_000 + 999_999);
    assert!(Timestamp::new(low + 1, 0).is_none());

    let (mut low, mut high) = (i64::MIN, 0i64);
    while low < high {
        let middle = (low as i128 + high as i128).div_euclid(2) as i64;
        if Timestamp::new(middle, 0).is_some() {
            high = middle;
        } else {
            low = middle + 1;
        }
    }
    let earliest = Timestamp::new(low, 0).unwrap();
    assert_eq!(earliest.micros() as i128, low as i128 * 1_000_000);
    assert!(Timestamp::new(low - 1, 0).is_none());
}

#[test]
fn the_system_clock_reads_no_leap_second() {
    for _ in 0..100 {
        let now = SystemClock.now();
        assert!(now.nanos() < 1_000_000_000);
        assert!(Timestamp::new(now.secs(), now.nanos()).is_some());
        let direct = Timestamp::now();
        assert!(direct.nanos() < 1_000_000_000);
    }
}

#[test]
fn a_new_identity_has_a_public_key_that_belongs_to_its_seed() {
    for crypto in [Ed25519Crypto::new(), Ed25519Crypto::default()] {
        let key = crypto.public_key();
        assert_eq!(key.len(), 32);
        let seed: [u8; 32] = crypto.export_keypair().unwrap().try_into().unwrap();
        assert_eq!(Ed25519Crypto::from_bytes(&seed).public_key(), key);
        // The key decodes: a signature of the identity verifies under it.
        let signature = crypto.sign(b"data").unwrap();
        assert!(crypto.verify(b"data", &signature, &key).unwrap());
    }
    // Two new identities have different keys.
    assert_ne!(Ed25519Crypto::new().public_key(), Ed25519Crypto::new().public_key());
}

#[test]
fn a_copy_of_a_store_holds_the_same_and_is_its_own() {
    let mut store = MemoryKvStore::new();
    store.put("a", b"1").unwrap();
    store.put("b", b"2").unwrap();
    let mut copy = store.clone();
    assert_eq!(copy.get("a").unwrap(), Some(b"1".to_vec()));
    assert_eq!(copy.get("b").unwrap(), Some(b"2".to_vec()));
    let mut keys = copy.list_keys("").unwrap();
    keys.sort();
    assert_eq!(keys, vec!["a".to_string(), "b".to_string()]);
    copy.put("a", b"3").unwrap();
    copy.delete("b").unwrap();
    assert_eq!(store.get("a").unwrap(), Some(b"1".to_vec()));
    assert_eq!(store.get("b").unwrap(), Some(b"2".to_vec()));
    assert_eq!(copy.get("a").unwrap(), Some(b"3".to_vec()));
    assert_eq!(copy.get("b").unwrap(), None);
}

#[test]
fn a_stamp_is_a_time_in_rfc_3339() {
    let text = Timestamp::stamp();
    let read = chrono::DateTime::parse_from_rfc3339(&text).unwrap();
    assert_eq!(read.to_rfc3339(), text);
    assert!(text.ends_with("+00:00"));
    let again = Timestamp::parse(&text).unwrap();
    assert_eq!(again.to_rfc3339(), text);
}

#[test]
fn timestamps_are_the_times_that_chrono_has() {
    let seconds: [i64; 12] = [
        i64::MIN,
        -8_334_601_228_801,
        -8_334_601_228_800,
        -61,
        -1,
        0,
        59,
        60,
        1_700_000_039,
        8_210_266_876_799,
        8_210_266_876_800,
        i64::MAX,
    ];
    let nanos: [u32; 7] = [0, 1, 999_999_999, 1_000_000_000, 1_999_999_999, 2_000_000_000, u32::MAX];
    for s in seconds {
        for n in nanos {
            let ours = Timestamp::new(s, n);
            let theirs = chrono::DateTime::from_timestamp(s, n);
            assert_eq!(ours.is_some(), theirs.is_some(), "{} {}", s, n);
            if let (Some(t), Some(d)) = (ours, theirs) {
                assert_eq!(t.micros(), d.timestamp_micros(), "{} {}", s, n);
                assert_eq!(t.to_rfc3339(), d.to_rfc3339());
            }
        }
    }
    assert_eq!(Timestamp::new(1, 2_500).unwrap().micros(), 1_000_002);
    assert_eq!(Timestamp::new(-1, 999_999_999).unwrap().micros(), -1);
    assert_eq!(Timestamp::new(59, 1_500_000_000).unwrap().micros(), 60_500_000);
}
