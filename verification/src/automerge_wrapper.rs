//! A mergeable document: the top-level scalar fields of a JSON object kept
//! in a CRDT, beside a cache of the full JSON value.

use vstd::prelude::*;
use vstd::string::*;

use crate::crdt::{
    applied_fields, base64_encode, base64_text, changes_view, doc_apply_changes, doc_changes,
    doc_clone, doc_fields, doc_get_changes, doc_get_heads, doc_heads, doc_load, doc_merge,
    doc_new, doc_root_is_map, doc_root_items, doc_save, hashes_view, is_zero_field, item_field,
    item_names, lists_items, loaded_fields, merged_fields, no_fields, number_as_float, put_into,
    scalar_from_bool, scalar_from_i64, scalar_from_json_float, scalar_from_str, scalar_model,
    scalar_shape, tx_fields, tx_put, FieldView, Scalar, ScalarView,
};
use crate::error::{automerge_error_text, Error};
use crate::json::{
    field_names, json_as_bool, json_as_i64, json_as_str, json_bool, json_clone, json_empty_object,
    json_entries, json_from_i64, json_from_u64, json_is_object, json_model, json_null,
    json_set_field, json_string, lists_fields, JsonView, NumberView,
};
use crate::text::concat;

verus! {

/// The scalar that a JSON value is written as: text for a string, an
/// integer for a number that fits 64 signed bits, a float for any other
/// number, a truth value for a boolean. Null, arrays and objects are not
/// written.
pub open spec fn written(j: JsonView) -> Option<ScalarView> {
    match j {
        JsonView::String(s) => Some(ScalarView::Str(s)),
        JsonView::Number(n) => match n.as_i64() {
            Some(i) => Some(ScalarView::Int(i)),
            None => Some(ScalarView::F64(Some(number_as_float(n)))),
        },
        JsonView::Bool(b) => Some(ScalarView::Boolean(b)),
        _ => None,
    }
}

/// The fields of a document after the top-level scalar fields of a JSON
/// value were written into it: each such field replaces the field of its
/// name, every other field stays.
pub open spec fn with_scalars(fields: Map<Seq<char>, FieldView>, j: JsonView) -> Map<
    Seq<char>,
    FieldView,
> {
    let m = j.fields();
    Map::new(
        |k: Seq<char>| fields.contains_key(k) || (m.contains_key(k) && written(m[k]) is Some),
        |k: Seq<char>|
            if m.contains_key(k) && written(m[k]) is Some {
                FieldView::Scalar(written(m[k]).unwrap())
            } else {
                fields[k]
            },
    )
}

/// Whether `got` are the fields that writing the scalars of `j` makes of
/// the fields `before`: those of `with_scalars`, but that a field which
/// held a float zero and is written a float zero may still hold the old
/// zero.
pub open spec fn written_into(
    before: Map<Seq<char>, FieldView>,
    j: JsonView,
    got: Map<Seq<char>, FieldView>,
) -> bool {
    written_as(before, with_scalars(before, j), got)
}

/// Whether `got` has the fields of `exact`, each with the value that it
/// has there, or with the float zero that it had in `before` where it is a
/// float zero in `exact` too.
pub open spec fn written_as(
    before: Map<Seq<char>, FieldView>,
    exact: Map<Seq<char>, FieldView>,
    got: Map<Seq<char>, FieldView>,
) -> bool {
    &&& forall|k: Seq<char>| #[trigger] got.contains_key(k) <==> exact.contains_key(k)
    &&& forall|k: Seq<char>|
        exact.contains_key(k) ==> {
            ||| #[trigger] got[k] == exact[k]
            ||| (before.contains_key(k) && is_zero_field(before[k]) && is_zero_field(exact[k])
                && got[k] == before[k])
        }
}

/// Whether no field holds a float zero.
pub open spec fn no_zero_fields(fields: Map<Seq<char>, FieldView>) -> bool {
    forall|k: Seq<char>| fields.contains_key(k) ==> !is_zero_field(#[trigger] fields[k])
}

/// Where no field held a float zero, writing is exact: the fields are those
/// of `with_scalars`.
pub proof fn lemma_written_exactly(
    before: Map<Seq<char>, FieldView>,
    j: JsonView,
    got: Map<Seq<char>, FieldView>,
)
    requires
        written_into(before, j, got),
        no_zero_fields(before),
    ensures
        got == with_scalars(before, j),
{
    let exact = with_scalars(before, j);
    assert forall|k: Seq<char>| exact.contains_key(k) implies got[k] == exact[k] by {
        if before.contains_key(k) {
            assert(!is_zero_field(before[k]));
        }
    }
    assert(got =~= exact);
}

/// The JSON value of a scalar: base64 text for bytes, zero for a counter,
/// null for a float that is not finite and for what is unknown.
pub open spec fn scalar_json(s: ScalarView) -> JsonView {
    match s {
        ScalarView::Bytes(b) => JsonView::String(base64_text(b)),
        ScalarView::Str(s) => JsonView::String(s),
        ScalarView::Int(i) => JsonView::Number(NumberView::of_i64(i)),
        ScalarView::Uint(u) => JsonView::Number(NumberView::PosInt(u)),
        ScalarView::F64(Some(n)) => JsonView::Number(n),
        ScalarView::F64(None) => JsonView::Null,
        ScalarView::Counter => JsonView::Number(NumberView::PosInt(0)),
        ScalarView::Timestamp(t) => JsonView::Number(NumberView::of_i64(t)),
        ScalarView::Boolean(b) => JsonView::Bool(b),
        ScalarView::Unknown => JsonView::Null,
        ScalarView::Null => JsonView::Null,
    }
}

/// The JSON value of a field: that of its scalar, null for an object.
pub open spec fn field_json(f: FieldView) -> JsonView {
    match f {
        FieldView::Scalar(s) => scalar_json(s),
        FieldView::Object => JsonView::Null,
    }
}

/// The JSON object of the fields of a document.
pub open spec fn fields_json(fields: Map<Seq<char>, FieldView>) -> JsonView {
    JsonView::Object(fields.map_values(|f: FieldView| field_json(f)))
}

/// The fields after the first `n` of the listed JSON fields were written.
pub open spec fn overlaid(
    fields: Map<Seq<char>, FieldView>,
    entries: Seq<(String, serde_json::Value)>,
    n: int,
) -> Map<Seq<char>, FieldView>
    decreases n,
{
    if n <= 0 {
        fields
    } else {
        let before = overlaid(fields, entries, n - 1);
        match written(json_model(entries[n - 1].1)) {
            Some(s) => before.insert(entries[n - 1].0@, FieldView::Scalar(s)),
            None => before,
        }
    }
}

/// What writing the first `n` listed fields leaves under each name.
proof fn lemma_overlaid(
    fields: Map<Seq<char>, FieldView>,
    entries: Seq<(String, serde_json::Value)>,
    n: int,
    k: Seq<char>,
)
    requires
        0 <= n <= entries.len(),
        field_names(entries).no_duplicates(),
    ensures
        (exists|i: int| 0 <= i < n && entries[i].0@ == k && written(json_model(entries[i].1)) is Some)
            ==> overlaid(fields, entries, n).contains_key(k),
        forall|i: int|
            0 <= i < n && (#[trigger] entries[i]).0@ == k && written(json_model(entries[i].1))
                is Some ==> overlaid(fields, entries, n).contains_key(k) && overlaid(
                fields,
                entries,
                n,
            )[k] == FieldView::Scalar(written(json_model(entries[i].1)).unwrap()),
        (forall|i: int|
            0 <= i < n && (#[trigger] entries[i]).0@ == k ==> written(json_model(entries[i].1))
                is None) ==> overlaid(fields, entries, n).contains_key(k) == fields.contains_key(k)
            && (fields.contains_key(k) ==> overlaid(fields, entries, n)[k] == fields[k]),
    decreases n,
{
    if n > 0 {
        lemma_overlaid(fields, entries, n - 1, k);
        let names = field_names(entries);
        assert(names[n - 1] == entries[n - 1].0@);
        assert forall|i: int|
            0 <= i < n - 1 && (#[trigger] entries[i]).0@ == k implies entries[n - 1].0@ != k by {
            assert(names[i] == entries[i].0@);
        }
    }
}

/// Writing every listed field of an object is writing its scalars.
proof fn lemma_overlaid_all(
    fields: Map<Seq<char>, FieldView>,
    entries: Seq<(String, serde_json::Value)>,
    j: JsonView,
)
    requires
        lists_fields(entries, j.fields()),
    ensures
        overlaid(fields, entries, entries.len() as int) == with_scalars(fields, j),
{
    let n = entries.len() as int;
    let m = j.fields();
    let names = field_names(entries);
    let out = overlaid(fields, entries, n);
    let want = with_scalars(fields, j);
    assert forall|k: Seq<char>| #[trigger]
        out.contains_key(k) == want.contains_key(k) && (out.contains_key(k) ==> out[k] == want[k]) by {
        lemma_overlaid(fields, entries, n, k);
        if m.contains_key(k) {
            assert(names.contains(k));
            let i = choose|i: int| 0 <= i < names.len() && names[i] == k;
            assert(entries[i].0@ == k);
            assert(json_model(entries[i].1) == m[k]);
            if written(m[k]) is None {
                assert forall|i2: int| 0 <= i2 < n && (#[trigger] entries[i2]).0@ == k implies written(
                    json_model(entries[i2].1),
                ) is None by {
                    assert(json_model(entries[i2].1) == m[entries[i2].0@]);
                }
            }
        } else {
            assert forall|i2: int| 0 <= i2 < n && (#[trigger] entries[i2]).0@ == k implies written(
                json_model(entries[i2].1),
            ) is None by {
                assert(names[i2] == k);
                assert(names.contains(k));
            }
        }
    }
    assert forall|k: Seq<char>| out.dom().contains(k) == want.dom().contains(k) by {
        assert(out.contains_key(k) == want.contains_key(k));
    }
    assert forall|k: Seq<char>| #[trigger] out.dom().contains(k) implies out[k] == want[k] by {
        assert(out.contains_key(k));
    }
    assert(out =~= want);
}

/// One more field written: what holds of the fields after the first `n`
/// listed fields still holds after the put of the next.
proof fn lemma_written_step(
    initial: Map<Seq<char>, FieldView>,
    entries: Seq<(String, serde_json::Value)>,
    n: int,
    before: Map<Seq<char>, FieldView>,
    got: Map<Seq<char>, FieldView>,
)
    requires
        0 <= n < entries.len(),
        field_names(entries).no_duplicates(),
        written_as(initial, overlaid(initial, entries, n), before),
        match written(json_model(entries[n].1)) {
            Some(s) => put_into(before, entries[n].0@, s, got),
            None => got == before,
        },
    ensures
        written_as(initial, overlaid(initial, entries, n + 1), got),
{
    let key = entries[n].0@;
    let names = field_names(entries);
    let exact = overlaid(initial, entries, n);
    let next = overlaid(initial, entries, n + 1);
    match written(json_model(entries[n].1)) {
        Some(s) => {
            assert(next == exact.insert(key, FieldView::Scalar(s)));
            lemma_overlaid(initial, entries, n, key);
            assert forall|i: int| 0 <= i < n && (#[trigger] entries[i]).0@ == key implies written(
                json_model(entries[i].1),
            ) is None by {
                assert(names[i] == entries[i].0@);
                assert(names[n] == key);
            }
            assert forall|k: Seq<char>| #[trigger] got.contains_key(k) <==> next.contains_key(k) by {
                assert(before.contains_key(k) <==> exact.contains_key(k));
            }
            assert forall|k: Seq<char>| next.contains_key(k) implies {
                ||| #[trigger] got[k] == next[k]
                ||| (initial.contains_key(k) && is_zero_field(initial[k]) && is_zero_field(next[k])
                    && got[k] == initial[k])
            } by {
                if k == key {
                    if got[key] != FieldView::Scalar(s) {
                        assert(before.contains_key(key));
                        assert(exact.contains_key(key));
                        assert(initial.contains_key(key) && exact[key] == initial[key]);
                        assert(before[key] == exact[key] || before[key] == initial[key]);
                    }
                } else {
                    assert(before.contains_key(k));
                    assert(exact.contains_key(k));
                    assert(got[k] == before[k]);
                    assert(next[k] == exact[k]);
                }
            }
        },
        None => {},
    }
}

/// Writes the top-level scalar fields of a JSON value into the document
/// that a transaction is changing. The root of a document takes every
/// scalar: the writing succeeds.
pub(crate) fn write_scalar_fields(
    tx: &mut automerge::transaction::Transaction<'_>,
    value: &serde_json::Value,
) -> (r: Result<(), automerge::AutomergeError>)
    ensures
        r is Ok,
        written_into(tx_fields(*old(tx)), json_model(*value), tx_fields(*final(tx))),
{
    let entries = json_entries(value);
    let ghost initial = tx_fields(*tx);
    let mut i: usize = 0;
    while i < entries.len()
        invariant
            i <= entries@.len(),
            lists_fields(entries@, json_model(*value).fields()),
            written_as(initial, overlaid(initial, entries@, i as int), tx_fields(*tx)),
        decreases entries@.len() - i,
    {
        let ghost before = tx_fields(*tx);
        let key = entries[i].0.as_str();
        let val = &entries[i].1;
        let scalar = if let Some(s) = json_as_str(val) {
            Some(scalar_from_str(s))
        } else if let Some(n) = json_as_i64(val) {
            Some(scalar_from_i64(n))
        } else if let Some(f) = scalar_from_json_float(val) {
            Some(f)
        } else if let Some(b) = json_as_bool(val) {
            Some(scalar_from_bool(b))
        } else {
            None
        };
        assert(match scalar {
            Some(s) => written(json_model(*val)) == Some(scalar_model(s)),
            None => written(json_model(*val)) is None,
        });
        match scalar {
            Some(s) => {
                match tx_put(tx, key, s) {
                    Ok(_) => {},
                    Err(e) => {
                        return Err(e);
                    },
                }
            },
            None => {},
        }
        proof {
            lemma_written_step(initial, entries@, i as int, before, tx_fields(*tx));
        }
        i += 1;
    }
    proof {
        lemma_overlaid_all(initial, entries@, json_model(*value));
    }
    Ok(())
}

/// Calls `Automerge::transact` with the writing of the scalar fields as
/// the work of the transaction. `transact` commits where the work
/// succeeds and adds no failure of its own; the writing succeeds, so the
/// call does, and the fields are written as the writing leaves them. The
/// result keeps the error type of the call.
#[verifier::external_body]
fn doc_write_scalars(doc: &mut automerge::Automerge, value: &serde_json::Value) -> (r: Result<
    (),
    automerge::AutomergeError,
>)
    ensures
        r is Ok,
        written_into(doc_fields(*old(doc)), json_model(*value), doc_fields(*final(doc))),
{
    doc.transact(|tx| write_scalar_fields(tx, value)).map(|_| ()).map_err(|failure| failure.error)
}

/// A mergeable document.
#[derive(Debug)]
pub struct AutomergeDoc {
    doc: automerge::Automerge,
    cached_json: Option<serde_json::Value>,
}

/// What a document holds: the fields of its CRDT, and its cache.
pub struct AutomergeDocView {
    pub fields: Map<Seq<char>, FieldView>,
    pub cache: Option<JsonView>,
}

/// The view of an optional JSON value.
pub open spec fn cache_view(cache: Option<serde_json::Value>) -> Option<JsonView> {
    match cache {
        Some(v) => Some(json_model(v)),
        None => None,
    }
}

impl View for AutomergeDoc {
    type V = AutomergeDocView;

    closed spec fn view(&self) -> AutomergeDocView {
        AutomergeDocView { fields: doc_fields(self.doc), cache: cache_view(self.cached_json) }
    }
}

impl AutomergeDoc {
    /// The heads of the CRDT, each by its bytes: the hashes of the changes
    /// that no other change of the document builds on.
    pub closed spec fn heads_model(&self) -> Seq<Seq<u8>> {
        doc_heads(self.doc)
    }

    /// The changes of the CRDT that a peer with the heads `have` lacks, each
    /// by its bytes, in the order of the document's history.
    pub closed spec fn changes_since(&self, have: Seq<Seq<u8>>) -> Seq<Seq<u8>> {
        doc_changes(self.doc, have)
    }

    /// The fields of the CRDT after a merge with another document; nothing
    /// where the CRDT refuses the merge.
    pub closed spec fn merged_with(&self, other: AutomergeDoc) -> Option<Map<Seq<char>, FieldView>> {
        merged_fields(self.doc, other.doc)
    }

    /// The fields of the CRDT after the changes, given by their bytes, were
    /// applied; nothing where the CRDT refuses them.
    pub closed spec fn with_changes(&self, changes: Seq<Seq<u8>>) -> Option<
        Map<Seq<char>, FieldView>,
    > {
        applied_fields(self.doc, changes)
    }

    /// A document without fields, without heads and without changes, with
    /// the empty object as its cache.
    pub fn new() -> (d: AutomergeDoc)
        ensures
            d@.fields == no_fields(),
            d@.cache == Some(JsonView::Object(Map::empty())),
            d.heads_model().len() == 0,
            forall|have: Seq<Seq<u8>>| (#[trigger] d.changes_since(have)).len() == 0,
    {
        AutomergeDoc { doc: doc_new(), cached_json: Some(json_empty_object()) }
    }

    /// A document of a JSON value: the top-level scalar fields of an object
    /// are written into the CRDT, and the value itself is the cache. Every
    /// value makes a document.
    pub fn from_json(value: &serde_json::Value) -> (r: Result<AutomergeDoc, Error>)
        ensures
            match r {
                Ok(d) => d@.fields == with_scalars(no_fields(), json_model(*value)) && d@.cache
                    == Some(json_model(*value)),
                Err(_) => false,
            },
    {
        let mut doc = doc_new();
        if json_is_object(value) {
            match doc_write_scalars(&mut doc, value) {
                Ok(_) => {},
                Err(e) => {
                    return Err(Error::from(e));
                },
            }
            proof {
                lemma_written_exactly(no_fields(), json_model(*value), doc_fields(doc));
            }
        } else {
            assert(with_scalars(no_fields(), json_model(*value)) =~= no_fields());
        }
        Ok(AutomergeDoc { doc, cached_json: Some(json_clone(value)) })
    }

    /// The document that the bytes hold, without a cache. Bytes that hold
    /// no document are refused with `AutomergeError`.
    pub fn load(bytes: &[u8]) -> (r: Result<AutomergeDoc, Error>)
        ensures
            match loaded_fields(bytes@) {
                Some(fields) => r matches Ok(d) && d@.fields == fields && d@.cache is None,
                None => r matches Err(e) && e is AutomergeError,
            },
    {
        match doc_load(bytes) {
            Ok(doc) => Ok(AutomergeDoc { doc, cached_json: None }),
            Err(e) => {
                let detail = automerge_error_text(&e);
                Err(Error::AutomergeError(concat("Failed to load document: ", detail.as_str())))
            },
        }
    }

    /// The CRDT as bytes, from which `load` makes a document with the same
    /// fields. The cache is not part of the bytes.
    pub fn save(&self) -> (bytes: Vec<u8>)
        ensures
            loaded_fields(bytes@) == Some(self@.fields),
    {
        doc_save(&self.doc)
    }

    /// Makes a JSON value the cache and writes the top-level scalar fields
    /// of an object into the CRDT. Fields that the value lacks stay in the
    /// CRDT. Every value is taken. The CRDT does not write again a value
    /// that a field holds, and it takes the two float zeros for one value:
    /// a field that holds a zero and is given the other zero may keep its
    /// own. In every other case the fields are those of `with_scalars`;
    /// `lemma_written_exactly` says so for a document without a float zero.
    pub fn update(&mut self, value: &serde_json::Value) -> (r: Result<(), Error>)
        ensures
            r is Ok,
            final(self)@.cache == Some(json_model(*value)),
            written_into(old(self)@.fields, json_model(*value), final(self)@.fields),
    {
        self.cached_json = Some(json_clone(value));
        if json_is_object(value) {
            match doc_write_scalars(&mut self.doc, value) {
                Ok(_) => {},
                Err(e) => {
                    return Err(Error::from(e));
                },
            }
        } else {
            assert(with_scalars(old(self)@.fields, json_model(*value)) =~= old(self)@.fields);
        }
        Ok(())
    }

    /// The JSON value of a scalar.
    pub fn scalar_to_json(scalar: &Scalar) -> (v: serde_json::Value)
        ensures
            json_model(v) == scalar_json(scalar@),
    {
        match scalar {
            Scalar::Bytes(b) => {
                let text = base64_encode(b.as_slice());
                json_string(text.as_str())
            },
            Scalar::Str(s) => json_string(s.as_str()),
            Scalar::Int(i) => json_from_i64(*i),
            Scalar::Uint(u) => json_from_u64(*u),
            Scalar::F64(n) => match n {
                Some(number) => {
                    let v = json_clone(number);
                    if crate::json::json_is_number(&v) {
                        v
                    } else {
                        json_null()
                    }
                },
                None => json_null(),
            },
            Scalar::Counter => json_from_u64(0),
            Scalar::Timestamp(t) => json_from_i64(*t),
            Scalar::Boolean(b) => json_bool(*b),
            Scalar::Unknown => json_null(),
            Scalar::Null => json_null(),
        }
    }

    /// The document as JSON: the cache where there is one, else the object
    /// of the fields of the CRDT, each as the JSON value of its scalar.
    /// Nested objects and arrays live in the cache alone: without it they
    /// come back as null, or not at all.
    pub fn to_json(&self) -> (r: Result<serde_json::Value, Error>)
        ensures
            match r {
                Ok(v) => json_model(v) == (match self@.cache {
                    Some(cached) => cached,
                    None => fields_json(self@.fields),
                }),
                Err(_) => false,
            },
    {
        if let Some(cached) = &self.cached_json {
            return Ok(json_clone(cached));
        }
        let mut object = json_empty_object();
        if doc_root_is_map(&self.doc) {
            let items = doc_root_items(&self.doc);
            let ghost fields = doc_fields(self.doc);
            let ghost names = item_names(items@);
            let mut i: usize = 0;
            while i < items.len()
                invariant
                    i <= items@.len(),
                    names == item_names(items@),
                    fields == doc_fields(self.doc),
                    lists_items(items@, fields),
                    json_model(object) is Object,
                    forall|k: Seq<char>|
                        json_model(object).fields().contains_key(k) <==> names.take(
                            i as int,
                        ).contains(k),
                    forall|j: int|
                        0 <= j < i ==> json_model(object).fields()[#[trigger] names[j]]
                            == field_json(fields[names[j]]),
                decreases items@.len() - i,
            {
                let ghost before = json_model(object).fields();
                let val = match &items[i].1 {
                    Some(s) => {
                        let shape = scalar_shape(s);
                        Self::scalar_to_json(&shape)
                    },
                    None => json_null(),
                };
                assert(names[i as int] == items@[i as int].0@);
                assert(json_model(val) == field_json(fields[names[i as int]])) by {
                    assert(item_field(items@[i as int].1) == fields[items@[i as int].0@]);
                }
                json_set_field(&mut object, items[i].0.as_str(), val);
                proof {
                    let seen = names.take(i as int);
                    let next = names.take(i as int + 1);
                    assert(next =~= seen.push(names[i as int]));
                    assert forall|k: Seq<char>|
                        json_model(object).fields().contains_key(k) <==> next.contains(k) by {
                        if next.contains(k) {
                            let j = choose|j: int| 0 <= j < next.len() && next[j] == k;
                            if j < i {
                                assert(seen[j] == k);
                            }
                        }
                        if seen.contains(k) {
                            let j = choose|j: int| 0 <= j < seen.len() && seen[j] == k;
                            assert(next[j] == k);
                        }
                        if k == names[i as int] {
                            assert(next[i as int] == k);
                        }
                    }
                    assert forall|j: int| 0 <= j < i + 1 implies json_model(object).fields()[#[trigger] names[j]]
                        == field_json(fields[names[j]]) by {
                        if j < i {
                            assert(names[j] != names[i as int]);
                            assert(before[names[j]] == field_json(fields[names[j]]));
                        }
                    }
                }
                i += 1;
            }
            proof {
                assert(names.take(i as int) =~= names);
                let got = json_model(object).fields();
                let want = fields.map_values(|f: FieldView| field_json(f));
                assert forall|k: Seq<char>| got.contains_key(k) == want.contains_key(k) && (
                got.contains_key(k) ==> got[k] == want[k]) by {
                    if got.contains_key(k) {
                        let j = choose|j: int| 0 <= j < names.len() && names[j] == k;
                        assert(got[names[j]] == field_json(fields[names[j]]));
                    }
                }
                assert(got =~= want);
            }
        }
        Ok(object)
    }

    /// Merges another document into this one and drops the cache: the
    /// fields are then those that the CRDT makes of the two documents. A
    /// refusal of the CRDT comes back as `AutomergeError`, and the cache
    /// stays. The other document is left as it is.
    pub fn merge(&mut self, other: &mut AutomergeDoc) -> (r: Result<(), Error>)
        ensures
            r is Ok <==> old(self).merged_with(*old(other)) is Some,
            match r {
                Ok(_) => final(self)@.cache is None && old(self).merged_with(*old(other)) == Some(
                    final(self)@.fields,
                ),
                Err(e) => e is AutomergeError && final(self)@.cache == old(self)@.cache,
            },
            final(other)@ == old(other)@,
    {
        match doc_merge(&mut self.doc, &mut other.doc) {
            Ok(_) => {},
            Err(e) => {
                let detail = automerge_error_text(&e);
                return Err(Error::AutomergeError(concat("Merge failed: ", detail.as_str())));
            },
        }
        self.cached_json = None;
        Ok(())
    }

    /// The changes that a peer with the given heads lacks, in the order of
    /// the document's history: what the peer applies to catch up.
    pub fn get_changes(&self, have_deps: &[automerge::ChangeHash]) -> (changes: Vec<automerge::Change>)
        ensures
            changes_view(changes@) == self.changes_since(hashes_view(have_deps@)),
    {
        doc_get_changes(&self.doc, have_deps)
    }

    /// Applies changes to the document and drops the cache: the fields are
    /// then those that the CRDT makes of the document and the changes. A
    /// refusal of the CRDT comes back as `AutomergeError`, and the cache
    /// stays.
    pub fn apply_changes(&mut self, changes: Vec<automerge::Change>) -> (r: Result<(), Error>)
        ensures
            r is Ok <==> old(self).with_changes(changes_view(changes@)) is Some,
            match r {
                Ok(_) => final(self)@.cache is None && old(self).with_changes(
                    changes_view(changes@),
                ) == Some(final(self)@.fields),
                Err(e) => e is AutomergeError && final(self)@.cache == old(self)@.cache,
            },
    {
        match doc_apply_changes(&mut self.doc, changes) {
            Ok(_) => {},
            Err(e) => {
                let detail = automerge_error_text(&e);
                return Err(Error::AutomergeError(concat("Failed to apply changes: ", detail.as_str())));
            },
        }
        self.cached_json = None;
        Ok(())
    }

    /// The heads of the document, by which a peer says what it has.
    pub fn get_heads(&self) -> (heads: Vec<automerge::ChangeHash>)
        ensures
            hashes_view(heads@) == self.heads_model(),
    {
        doc_get_heads(&self.doc)
    }
}

impl Clone for AutomergeDoc {
    fn clone(&self) -> (d: AutomergeDoc)
        ensures
            d@ == self@,
            d.heads_model() == self.heads_model(),
            forall|have: Seq<Seq<u8>>| #[trigger] d.changes_since(have) == self.changes_since(have),
    {
        let cached_json = match &self.cached_json {
            Some(v) => Some(json_clone(v)),
            None => None,
        };
        AutomergeDoc { doc: doc_clone(&self.doc), cached_json }
    }
}

impl Default for AutomergeDoc {
    fn default() -> (d: AutomergeDoc)
        ensures
            d@.fields == no_fields(),
            d@.cache == Some(JsonView::Object(Map::empty())),
    {
        AutomergeDoc::new()
    }
}

/// Whether a JSON value comes back from the CRDT as it is: a string, a
/// truth value, an integer that fits 64 signed bits, or a float.
pub open spec fn kept_as_is(j: JsonView) -> bool {
    match j {
        JsonView::String(_) => true,
        JsonView::Bool(_) => true,
        JsonView::Number(NumberView::PosInt(u)) => u <= i64::MAX as u64,
        JsonView::Number(NumberView::NegInt(i)) => i < 0,
        JsonView::Number(NumberView::Float(_)) => true,
        _ => false,
    }
}

/// Whether a JSON value is an object whose fields all come back from the
/// CRDT as they are.
pub open spec fn scalar_only(j: JsonView) -> bool {
    j is Object && forall|k: Seq<char>|
        j.fields().contains_key(k) ==> kept_as_is(#[trigger] j.fields()[k])
}

/// Save and load keep a scalar-only object: the fields that `from_json`
/// writes for such an object, which `save` and `load` hand on unchanged,
/// are read by `to_json` as the object itself. A nested object or an array
/// is not kept: it is not written, so without the cache it is gone.
pub proof fn lemma_scalars_read_back(j: JsonView)
    requires
        scalar_only(j),
    ensures
        fields_json(with_scalars(no_fields(), j)) == j,
{
    let m = j.fields();
    let got = with_scalars(no_fields(), j).map_values(|f: FieldView| field_json(f));
    assert forall|k: Seq<char>| m.contains_key(k) implies got.contains_key(k) && got[k] == m[k] by {
        assert(kept_as_is(m[k]));
        assert(written(m[k]) is Some);
        assert(with_scalars(no_fields(), j).contains_key(k));
        assert(scalar_json(written(m[k]).unwrap()) == m[k]);
    }
    assert forall|k: Seq<char>| got.contains_key(k) implies m.contains_key(k) by {
        assert(with_scalars(no_fields(), j).contains_key(k));
    }
    assert(got =~= m);
}

} // verus!
