//! The three capabilities that the repository engine is built on (storage,
//! signing and a clock), and an implementation of each.

use vstd::prelude::*;
use vstd::slice::slice_to_vec;
use vstd::string::*;

use crate::ed25519::{
    ed25519_accepts, ed25519_check_key, ed25519_generate, ed25519_key_decodes, ed25519_public,
    ed25519_public_key, ed25519_sign, ed25519_signature, ed25519_verify,
};
use crate::assoc::{
    lemma_filter_no_repeats, lemma_paired_empty, lemma_paired_push, lemma_paired_remove,
    lemma_paired_update, lemma_place, no_repeats, paired,
};
use crate::error::Error;
use crate::text::{same_text, starts_with};
use crate::time::Timestamp;

verus! {

/// The texts of a list of keys.
pub open spec fn key_texts(keys: Seq<String>) -> Seq<Seq<char>> {
    keys.map_values(|k: String| k@)
}

/// Whether `keys` lists exactly the keys of `contents` that begin with
/// `prefix`, each once.
pub open spec fn lists_keys(
    keys: Seq<String>,
    contents: Map<Seq<char>, Seq<u8>>,
    prefix: Seq<char>,
) -> bool {
    &&& key_texts(keys).no_duplicates()
    &&& forall|k: Seq<char>| #[trigger]
        key_texts(keys).contains(k) <==> contents.contains_key(k) && prefix.is_prefix_of(k)
}

/// What `get` returns on success from a store with the given contents.
pub open spec fn looked_up(contents: Map<Seq<char>, Seq<u8>>, key: Seq<char>) -> Option<Seq<u8>> {
    if contents.contains_key(key) {
        Some(contents[key])
    } else {
        None
    }
}

/// The view of optional bytes.
pub open spec fn bytes_view(b: Option<Vec<u8>>) -> Option<Seq<u8>> {
    match b {
        Some(b) => Some(b@),
        None => None,
    }
}

/// A key-value store that keeps the repository's data.
pub trait KvStore {
    /// What the store holds: the bytes under each key. An implementation
    /// that does not say leaves it open.
    open spec fn contents(&self) -> Map<Seq<char>, Seq<u8>> {
        arbitrary()
    }

    /// Whether no operation on this store fails. An implementation that
    /// does not say so is not taken to be dependable.
    open spec fn dependable(&self) -> bool {
        false
    }

    /// Stores a value under a key, in place of any value that was there.
    fn put(&mut self, key: &str, value: &[u8]) -> (r: Result<(), Error>)
        ensures
            r is Ok ==> final(self).contents() == old(self).contents().insert(key@, value@),
            final(self).dependable() == old(self).dependable(),
            old(self).dependable() ==> r is Ok,
    ;

    /// The value under a key, if there is one.
    fn get(&self, key: &str) -> (r: Result<Option<Vec<u8>>, Error>)
        ensures
            r matches Ok(v) ==> bytes_view(v) == looked_up(self.contents(), key@),
            self.dependable() ==> r is Ok,
    ;

    /// Removes a key and its value; nothing changes where the key is absent.
    fn delete(&mut self, key: &str) -> (r: Result<(), Error>)
        ensures
            r is Ok ==> final(self).contents() == old(self).contents().remove(key@),
            final(self).dependable() == old(self).dependable(),
            old(self).dependable() ==> r is Ok,
    ;

    /// Whether there is a value under a key.
    fn exists_key(&self, key: &str) -> (r: Result<bool, Error>)
        ensures
            r matches Ok(b) ==> b == self.contents().contains_key(key@),
            self.dependable() ==> r is Ok,
    ;

    /// The keys that begin with a prefix, each once, in no stated order.
    fn list_keys(&self, prefix: &str) -> (r: Result<Vec<String>, Error>)
        ensures
            r matches Ok(keys) ==> lists_keys(keys@, self.contents(), prefix@),
            self.dependable() ==> r is Ok,
    ;
}

/// A source of the current time.
pub trait Clock {
    /// The current time.
    fn now(&self) -> Timestamp;
}

/// A signing identity: one key pair, and the check of signatures.
pub trait Crypto {
    /// The public key of the identity. An implementation that does not say
    /// leaves it open.
    open spec fn public_key_bytes(&self) -> Seq<u8> {
        arbitrary()
    }

    /// Whether `verify` accepts the signature over the data under the key.
    /// An implementation that does not say leaves it open.
    open spec fn accepts(&self, data: Seq<u8>, signature: Seq<u8>, public_key: Seq<u8>) -> bool {
        arbitrary()
    }

    /// Whether signing and exporting never fail. An implementation that
    /// does not say so is not taken to be dependable.
    open spec fn dependable(&self) -> bool {
        false
    }

    /// Whether `import_keypair` takes the key material. An implementation
    /// that does not say leaves it open.
    open spec fn accepts_keypair(&self, data: Seq<u8>) -> bool {
        arbitrary()
    }

    /// The key material that `export_keypair` hands out. An implementation
    /// that does not say leaves it open.
    open spec fn exported_keypair(&self) -> Seq<u8> {
        arbitrary()
    }

    /// Signs the data. The identity's own public key accepts the signature.
    fn sign(&self, data: &[u8]) -> (r: Result<Vec<u8>, Error>)
        ensures
            r matches Ok(signature) ==> self.accepts(data@, signature@, self.public_key_bytes()),
            self.dependable() ==> r is Ok,
    ;

    /// Says whether the signature over the data is valid under the key.
    fn verify(&self, data: &[u8], signature: &[u8], public_key: &[u8]) -> (r: Result<bool, Error>)
        ensures
            r matches Ok(b) ==> b == self.accepts(data@, signature@, public_key@),
            self.accepts(data@, signature@, public_key@) ==> r is Ok,
    ;

    /// The public key of the identity.
    fn public_key(&self) -> (key: Vec<u8>)
        ensures
            key@ == self.public_key_bytes(),
    ;

    /// The key material from which `import_keypair` restores the identity.
    fn export_keypair(&self) -> (r: Result<Vec<u8>, Error>)
        ensures
            r matches Ok(material) ==> material@ == self.exported_keypair(),
            self.dependable() ==> r is Ok,
    ;

    /// Replaces the identity by the one of the given key material. Nothing
    /// changes where the material is refused.
    fn import_keypair(&mut self, data: &[u8]) -> (r: Result<(), Error>)
        ensures
            r is Ok <==> old(self).accepts_keypair(data@),
            r is Err ==> final(self).public_key_bytes() == old(self).public_key_bytes(),
            final(self).dependable() == old(self).dependable(),
            forall|d: Seq<u8>, s: Seq<u8>, k: Seq<u8>|
                final(self).accepts(d, s, k) == old(self).accepts(d, s, k),
    ;
}

/// The clock of the system.
#[derive(Debug, Clone, Copy, Default)]
pub struct SystemClock;

impl Clock for SystemClock {
    /// The current time of the system clock: a time that `chrono`
    /// represents, with less than a second of nanoseconds.
    fn now(&self) -> (t: Timestamp)
        ensures
            crate::time::representable(t@.secs, t@.nanos),
            t@.nanos < 1_000_000_000,
    {
        Timestamp::now()
    }
}

/// A key-value store in memory.
#[derive(Debug)]
pub struct MemoryKvStore {
    entries: Vec<(String, Vec<u8>)>,
}

/// The keys of a list of entries.
pub open spec fn entry_keys(entries: Seq<(String, Vec<u8>)>) -> Seq<Seq<char>> {
    entries.map_values(|e: (String, Vec<u8>)| e.0@)
}

/// The values of a list of entries.
pub open spec fn entry_values(entries: Seq<(String, Vec<u8>)>) -> Seq<Seq<u8>> {
    entries.map_values(|e: (String, Vec<u8>)| e.1@)
}

impl MemoryKvStore {
    #[verifier::type_invariant]
    spec fn well_formed(self) -> bool {
        no_repeats(entry_keys(self.entries@))
    }

    /// An empty store.
    pub fn new() -> (s: MemoryKvStore)
        ensures
            s.contents() == Map::<Seq<char>, Seq<u8>>::empty(),
            s.dependable(),
    {
        let s = MemoryKvStore { entries: Vec::new() };
        proof {
            lemma_paired_empty(entry_keys(s.entries@), entry_values(s.entries@));
        }
        s
    }

    fn find(&self, key: &str) -> (r: Option<usize>)
        ensures
            match r {
                Some(i) => i < self.entries@.len() && entry_keys(self.entries@)[i as int] == key@,
                None => !entry_keys(self.entries@).contains(key@),
            },
    {
        let mut i: usize = 0;
        while i < self.entries.len()
            invariant
                i <= self.entries@.len(),
                forall|j: int| 0 <= j < i ==> entry_keys(self.entries@)[j] != key@,
            decreases self.entries@.len() - i,
        {
            if same_text(self.entries[i].0.as_str(), key) {
                return Some(i);
            }
            i += 1;
        }
        None
    }
}

impl Clone for MemoryKvStore {
    fn clone(&self) -> (s: MemoryKvStore)
        ensures
            s.contents() == self.contents(),
            s.dependable(),
    {
        proof {
            use_type_invariant(self);
        }
        let mut entries: Vec<(String, Vec<u8>)> = Vec::new();
        let mut i: usize = 0;
        while i < self.entries.len()
            invariant
                i <= self.entries@.len(),
                entries@.len() == i,
                forall|j: int|
                    0 <= j < i ==> (#[trigger] entries@[j]).0@ == self.entries@[j].0@ && entries@[j].1@
                        == self.entries@[j].1@,
            decreases self.entries@.len() - i,
        {
            entries.push((self.entries[i].0.clone(), self.entries[i].1.clone()));
            i += 1;
        }
        assert(entry_keys(entries@) =~= entry_keys(self.entries@));
        assert(entry_values(entries@) =~= entry_values(self.entries@));
        MemoryKvStore { entries }
    }
}

impl Default for MemoryKvStore {
    fn default() -> (s: MemoryKvStore)
        ensures
            s.contents() == Map::<Seq<char>, Seq<u8>>::empty(),
            s.dependable(),
    {
        MemoryKvStore::new()
    }
}

impl KvStore for MemoryKvStore {
    closed spec fn contents(&self) -> Map<Seq<char>, Seq<u8>> {
        paired(entry_keys(self.entries@), entry_values(self.entries@))
    }

    open spec fn dependable(&self) -> bool {
        true
    }

    fn put(&mut self, key: &str, value: &[u8]) -> (r: Result<(), Error>) {
        proof {
            use_type_invariant(&*self);
        }
        let ghost keys = entry_keys(self.entries@);
        let ghost values = entry_values(self.entries@);
        let entry = (key.to_owned(), slice_to_vec(value));
        let found = self.find(key);
        let mut entries: Vec<(String, Vec<u8>)> = Vec::new();
        core::mem::swap(&mut self.entries, &mut entries);
        match found {
            Some(i) => {
                entries.set(i, entry);
                proof {
                    lemma_paired_update(keys, values, i as int, value@);
                    assert(entry_keys(entries@) =~= keys);
                    assert(entry_values(entries@) =~= values.update(i as int, value@));
                }
            },
            None => {
                entries.push(entry);
                proof {
                    lemma_paired_push(keys, values, key@, value@);
                    assert(entry_keys(entries@) =~= keys.push(key@));
                    assert(entry_values(entries@) =~= values.push(value@));
                }
            },
        }
        self.entries = entries;
        Ok(())
    }

    fn get(&self, key: &str) -> (r: Result<Option<Vec<u8>>, Error>) {
        proof {
            use_type_invariant(self);
        }
        match self.find(key) {
            Some(i) => {
                proof {
                    lemma_place(entry_keys(self.entries@), entry_values(self.entries@), i as int);
                }
                Ok(Some(self.entries[i].1.clone()))
            },
            None => Ok(None),
        }
    }

    fn delete(&mut self, key: &str) -> (r: Result<(), Error>) {
        proof {
            use_type_invariant(&*self);
        }
        let ghost keys = entry_keys(self.entries@);
        let ghost values = entry_values(self.entries@);
        let found = self.find(key);
        let mut entries: Vec<(String, Vec<u8>)> = Vec::new();
        core::mem::swap(&mut self.entries, &mut entries);
        match found {
            Some(i) => {
                entries.remove(i);
                proof {
                    lemma_paired_remove(keys, values, i as int);
                    assert(entry_keys(entries@) =~= keys.remove(i as int));
                    assert(entry_values(entries@) =~= values.remove(i as int));
                }
            },
            None => {
                assert(paired(keys, values) =~= paired(keys, values).remove(key@));
            },
        }
        self.entries = entries;
        Ok(())
    }

    fn exists_key(&self, key: &str) -> (r: Result<bool, Error>) {
        Ok(self.find(key).is_some())
    }

    fn list_keys(&self, prefix: &str) -> (r: Result<Vec<String>, Error>) {
        proof {
            use_type_invariant(self);
        }
        let ghost all = entry_keys(self.entries@);
        let mut keys: Vec<String> = Vec::new();
        let mut i: usize = 0;
        assert(all.take(0) =~= Seq::<Seq<char>>::empty());
        assert(key_texts(keys@) =~= Seq::<Seq<char>>::empty());
        reveal(Seq::filter);
        while i < self.entries.len()
            invariant
                i <= self.entries@.len(),
                all == entry_keys(self.entries@),
                key_texts(keys@) == all.take(i as int).filter(|k: Seq<char>| prefix@.is_prefix_of(k)),
            decreases self.entries@.len() - i,
        {
            let ghost before = key_texts(keys@);
            let keep = starts_with(self.entries[i].0.as_str(), prefix);
            if keep {
                keys.push(self.entries[i].0.clone());
            }
            proof {
                let next = all.take(i as int + 1);
                assert(next.drop_last() =~= all.take(i as int));
                assert(next.last() == self.entries@[i as int].0@);
                reveal(Seq::filter);
                if keep {
                    assert(key_texts(keys@) =~= before.push(all[i as int]));
                }
            }
            i += 1;
        }
        proof {
            assert(all.take(i as int) =~= all);
            let wanted = |k: Seq<char>| prefix@.is_prefix_of(k);
            let texts = key_texts(keys@);
            lemma_filter_no_repeats(all, wanted);
            assert forall|k: Seq<char>| #[trigger]
                texts.contains(k) <==> self.contents().contains_key(k) && prefix@.is_prefix_of(
                    k,
                ) by {
                if texts.contains(k) {
                    all.lemma_filter_contains_rev(wanted, k);
                    let j = choose|j: int| 0 <= j < texts.len() && texts[j] == k;
                    all.lemma_filter_pred(wanted, j);
                }
                if all.contains(k) && prefix@.is_prefix_of(k) {
                    let j = choose|j: int| 0 <= j < all.len() && all[j] == k;
                    all.lemma_filter_contains(wanted, j);
                }
            }
        }
        Ok(keys)
    }
}

/// An Ed25519 signing identity: the 32-byte seed of its key, and the public
/// key that belongs to it.
#[derive(Debug)]
pub struct Ed25519Crypto {
    seed: [u8; 32],
    public: Vec<u8>,
}

impl Ed25519Crypto {
    #[verifier::type_invariant]
    spec fn well_formed(self) -> bool {
        &&& self.public@ == ed25519_public_key(self.seed@)
        &&& self.public@.len() == 32
        &&& ed25519_key_decodes(self.public@)
    }

    /// The seed of the key.
    pub closed spec fn seed_bytes(&self) -> Seq<u8> {
        self.seed@
    }

    /// An identity with a new random key. Whatever the seed, the public key
    /// is the one that belongs to it: 32 bytes that decode as a key.
    pub fn new() -> (c: Ed25519Crypto)
        ensures
            c.dependable(),
            c.seed_bytes().len() == 32,
            c.public_key_bytes() == ed25519_public_key(c.seed_bytes()),
            c.public_key_bytes().len() == 32,
            ed25519_key_decodes(c.public_key_bytes()),
    {
        let seed = ed25519_generate();
        let public = ed25519_public(&seed);
        Ed25519Crypto { seed, public }
    }

    /// The identity of the key with the given seed.
    pub fn from_bytes(bytes: &[u8; 32]) -> (c: Ed25519Crypto)
        ensures
            c.seed_bytes() == bytes@,
            c.public_key_bytes() == ed25519_public_key(bytes@),
            c.dependable(),
    {
        let public = ed25519_public(bytes);
        Ed25519Crypto { seed: *bytes, public }
    }
}

impl Clone for Ed25519Crypto {
    fn clone(&self) -> (c: Ed25519Crypto)
        ensures
            c.seed_bytes() == self.seed_bytes(),
            c.public_key_bytes() == self.public_key_bytes(),
    {
        proof {
            use_type_invariant(self);
        }
        Ed25519Crypto { seed: self.seed, public: self.public.clone() }
    }
}

impl Default for Ed25519Crypto {
    fn default() -> (c: Ed25519Crypto)
        ensures
            c.dependable(),
            c.public_key_bytes().len() == 32,
            ed25519_key_decodes(c.public_key_bytes()),
    {
        Ed25519Crypto::new()
    }
}

impl Crypto for Ed25519Crypto {
    closed spec fn public_key_bytes(&self) -> Seq<u8> {
        ed25519_public_key(self.seed@)
    }

    open spec fn accepts(&self, data: Seq<u8>, signature: Seq<u8>, public_key: Seq<u8>) -> bool {
        &&& public_key.len() == 32
        &&& ed25519_key_decodes(public_key)
        &&& signature.len() == 64
        &&& ed25519_accepts(public_key, data, signature)
    }

    open spec fn dependable(&self) -> bool {
        true
    }

    open spec fn accepts_keypair(&self, data: Seq<u8>) -> bool {
        data.len() == 32
    }

    open spec fn exported_keypair(&self) -> Seq<u8> {
        self.seed_bytes()
    }

    /// The Ed25519 signature of the key over the data: 64 bytes.
    fn sign(&self, data: &[u8]) -> (r: Result<Vec<u8>, Error>)
        ensures
            r matches Ok(signature) && signature@ == ed25519_signature(self.seed_bytes(), data@)
                && signature@.len() == 64,
    {
        proof {
            use_type_invariant(self);
        }
        let signature = ed25519_sign(&self.seed, data);
        Ok(signature)
    }

    /// Checks a signature. A public key that has not 32 bytes or encodes no
    /// key, and a signature that has not 64 bytes, are refused with
    /// `CryptoError`, in this order.
    fn verify(&self, data: &[u8], signature: &[u8], public_key: &[u8]) -> (r: Result<bool, Error>)
        ensures
            r is Ok <==> public_key@.len() == 32 && ed25519_key_decodes(public_key@)
                && signature@.len() == 64,
            r matches Ok(b) ==> b == ed25519_accepts(public_key@, data@, signature@),
            r matches Err(e) ==> (e matches Error::CryptoError(m) && (public_key@.len() != 32 ==> m@
                == "Invalid public key"@) && (public_key@.len() == 32 && ed25519_key_decodes(
                public_key@,
            ) ==> m@ == "Invalid signature"@)),
    {
        if public_key.len() != 32 {
            return Err(Error::CryptoError("Invalid public key".to_owned()));
        }
        match ed25519_check_key(public_key) {
            Ok(_) => {},
            Err(m) => {
                return Err(Error::CryptoError(m));
            },
        }
        if signature.len() != 64 {
            return Err(Error::CryptoError("Invalid signature".to_owned()));
        }
        Ok(ed25519_verify(public_key, data, signature))
    }

    /// The public key: 32 bytes.
    fn public_key(&self) -> (key: Vec<u8>)
        ensures
            key@.len() == 32,
    {
        proof {
            use_type_invariant(self);
        }
        self.public.clone()
    }

    /// The seed of the key.
    fn export_keypair(&self) -> (r: Result<Vec<u8>, Error>)
        ensures
            r matches Ok(seed) && seed@ == self.seed_bytes(),
    {
        Ok(slice_to_vec(self.seed.as_slice()))
    }

    /// Takes a seed of 32 bytes as the key; any other length is refused with
    /// `CryptoError`.
    fn import_keypair(&mut self, data: &[u8]) -> (r: Result<(), Error>)
        ensures
            match r {
                Ok(_) => final(self).seed_bytes() == data@,
                Err(e) => final(self).seed_bytes() == old(self).seed_bytes() && (
                e matches Error::CryptoError(m) && m@ == "Invalid keypair length"@),
            },
    {
        if data.len() != 32 {
            return Err(Error::CryptoError("Invalid keypair length".to_owned()));
        }
        let mut seed: [u8; 32] = [0u8; 32];
        let mut i: usize = 0;
        while i < 32
            invariant
                i <= 32,
                data@.len() == 32,
                forall|j: int| 0 <= j < i ==> seed@[j] == data@[j],
            decreases 32 - i,
        {
            seed[i] = data[i];
            i += 1;
        }
        assert(seed@ =~= data@);
        let public = ed25519_public(&seed);
        *self = Ed25519Crypto { seed, public };
        Ok(())
    }
}

} // verus!
