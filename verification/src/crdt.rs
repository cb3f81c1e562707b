//! The CRDT document of `automerge`, as far as the library relies on it: the
//! fields at the root of a document, and the scalar values they hold.

use vstd::prelude::*;

use crate::json::{json_model, JsonView, NumberView};

verus! {

/// `automerge::Automerge`, a document. Nothing inside it is seen here;
/// `doc_fields` says what is at its root.
#[verifier::external_type_specification]
#[verifier::external_body]
pub struct ExAutomerge(automerge::Automerge);

/// `automerge::transaction::Transaction`, a change to a document that is
/// under way. `tx_fields` says what is at the root of the document.
#[verifier::external_type_specification]
#[verifier::external_body]
pub struct ExTransaction<'a>(automerge::transaction::Transaction<'a>);

/// `automerge::ScalarValue`. `scalar_model` says what it holds.
#[verifier::external_type_specification]
#[verifier::external_body]
pub struct ExScalarValue(automerge::ScalarValue);

/// `automerge::ChangeHash`, the hash of a change. `hash_bytes` says which
/// bytes it holds.
#[verifier::external_type_specification]
#[verifier::external_body]
pub struct ExChangeHash(automerge::ChangeHash);

/// `automerge::Change`, one change to a document. `change_bytes` says which
/// bytes it is made of.
#[verifier::external_type_specification]
#[verifier::external_body]
pub struct ExChange(automerge::Change);

/// What a scalar value of a document holds. A float is held as the JSON
/// number that it makes, which only a finite float does.
pub enum ScalarView {
    Bytes(Seq<u8>),
    Str(Seq<char>),
    Int(i64),
    Uint(u64),
    F64(Option<NumberView>),
    Counter,
    Timestamp(i64),
    Boolean(bool),
    Unknown,
    Null,
}

/// What a field of a document holds: a scalar value, or an object.
pub enum FieldView {
    Scalar(ScalarView),
    Object,
}

/// A scalar value of a document, taken apart.
#[derive(Debug)]
pub enum Scalar {
    Bytes(Vec<u8>),
    Str(String),
    Int(i64),
    Uint(u64),
    /// A float as the JSON number that it makes; none for a float that is
    /// not finite.
    F64(Option<serde_json::Value>),
    Counter,
    Timestamp(i64),
    Boolean(bool),
    Unknown,
    Null,
}

impl View for Scalar {
    type V = ScalarView;

    open spec fn view(&self) -> ScalarView {
        match self {
            Scalar::Bytes(b) => ScalarView::Bytes(b@),
            Scalar::Str(s) => ScalarView::Str(s@),
            Scalar::Int(i) => ScalarView::Int(*i),
            Scalar::Uint(u) => ScalarView::Uint(*u),
            Scalar::F64(n) => ScalarView::F64(
                match n {
                    Some(v) => match json_model(*v) {
                        JsonView::Number(n) => Some(n),
                        _ => None,
                    },
                    None => None,
                },
            ),
            Scalar::Counter => ScalarView::Counter,
            Scalar::Timestamp(t) => ScalarView::Timestamp(*t),
            Scalar::Boolean(b) => ScalarView::Boolean(*b),
            Scalar::Unknown => ScalarView::Unknown,
            Scalar::Null => ScalarView::Null,
        }
    }
}

/// The fields at the root of a document: what `map_range` over the root
/// yields.
pub uninterp spec fn doc_fields(doc: automerge::Automerge) -> Map<Seq<char>, FieldView>;

/// The fields at the root of the document that a transaction is changing.
pub uninterp spec fn tx_fields(tx: automerge::transaction::Transaction<'_>) -> Map<
    Seq<char>,
    FieldView,
>;

/// The 32 bytes that a change hash holds.
pub uninterp spec fn hash_bytes(h: automerge::ChangeHash) -> Seq<u8>;

/// The bytes that a change is made of, as `Change::raw_bytes` gives them.
pub uninterp spec fn change_bytes(c: automerge::Change) -> Seq<u8>;

/// The heads of a document, each by its bytes, in the order in which
/// `Automerge::get_heads` gives them: the hashes of the changes that no
/// other change of the document builds on.
pub uninterp spec fn doc_heads(doc: automerge::Automerge) -> Seq<Seq<u8>>;

/// The changes of a document that a peer with the heads `have` lacks, each
/// by its bytes, in the order in which `Automerge::get_changes` gives them.
pub uninterp spec fn doc_changes(doc: automerge::Automerge, have: Seq<Seq<u8>>) -> Seq<Seq<u8>>;

/// The bytes of each hash of a list.
pub open spec fn hashes_view(hashes: Seq<automerge::ChangeHash>) -> Seq<Seq<u8>> {
    hashes.map_values(|h: automerge::ChangeHash| hash_bytes(h))
}

/// The bytes of each change of a list.
pub open spec fn changes_view(changes: Seq<automerge::Change>) -> Seq<Seq<u8>> {
    changes.map_values(|c: automerge::Change| change_bytes(c))
}

/// The fields at the root of a document after `Automerge::merge` applied to
/// it the changes of another document that it lacked; nothing where
/// `merge` refuses.
pub uninterp spec fn merged_fields(doc: automerge::Automerge, other: automerge::Automerge) -> Option<
    Map<Seq<char>, FieldView>,
>;

/// The fields at the root of a document after `Automerge::apply_changes`
/// applied the changes, given by their bytes; nothing where it refuses.
pub uninterp spec fn applied_fields(doc: automerge::Automerge, changes: Seq<Seq<u8>>) -> Option<
    Map<Seq<char>, FieldView>,
>;

/// What a scalar value of `automerge` holds.
pub uninterp spec fn scalar_model(s: automerge::ScalarValue) -> ScalarView;

/// The fields at the root of the document that `Automerge::load` reads from
/// the bytes, if it reads one.
pub uninterp spec fn loaded_fields(bytes: Seq<u8>) -> Option<Map<Seq<char>, FieldView>>;

/// The JSON number of the float nearest to an unsigned integer.
pub uninterp spec fn float_of_u64(u: u64) -> NumberView;

/// The JSON number of the float nearest to a signed integer.
pub uninterp spec fn float_of_i64(i: i64) -> NumberView;

/// A JSON number as a float: a float stays what it is, an integer becomes
/// the float nearest to it.
pub open spec fn number_as_float(n: NumberView) -> NumberView {
    match n {
        NumberView::PosInt(u) => float_of_u64(u),
        NumberView::NegInt(i) => float_of_i64(i),
        NumberView::Float(bits) => NumberView::Float(bits),
    }
}

/// The standard base64 text of a byte string, with padding.
pub uninterp spec fn base64_text(bytes: Seq<u8>) -> Seq<char>;

/// No fields at all.
pub open spec fn no_fields() -> Map<Seq<char>, FieldView> {
    Map::empty()
}

/// Whether a scalar is a float zero, of either sign.
pub open spec fn is_zero_float(s: ScalarView) -> bool {
    ||| s == ScalarView::F64(Some(NumberView::Float(0)))
    ||| s == ScalarView::F64(Some(NumberView::Float(0x8000_0000_0000_0000)))
}

/// Whether a field holds a float zero, of either sign.
pub open spec fn is_zero_field(f: FieldView) -> bool {
    f matches FieldView::Scalar(s) && is_zero_float(s)
}

/// Whether `got` are the fields that a put of `value` under `key` makes of
/// the fields `before`: the other fields stay, and the field of the key
/// holds the value, or still the zero that it held where the value is a
/// zero too.
pub open spec fn put_into(
    before: Map<Seq<char>, FieldView>,
    key: Seq<char>,
    value: ScalarView,
    got: Map<Seq<char>, FieldView>,
) -> bool {
    &&& forall|k: Seq<char>| #[trigger] got.contains_key(k) <==> k == key || before.contains_key(k)
    &&& forall|k: Seq<char>| k != key && before.contains_key(k) ==> #[trigger] got[k] == before[k]
    &&& {
        ||| got[key] == FieldView::Scalar(value)
        ||| (is_zero_float(value) && before.contains_key(key) && is_zero_field(before[key])
            && got[key] == before[key])
    }
}

/// The names of a list of fields.
pub open spec fn item_names(items: Seq<(String, Option<automerge::ScalarValue>)>) -> Seq<Seq<char>> {
    items.map_values(|e: (String, Option<automerge::ScalarValue>)| e.0@)
}

/// The field that an item stands for.
pub open spec fn item_field(value: Option<automerge::ScalarValue>) -> FieldView {
    match value {
        Some(s) => FieldView::Scalar(scalar_model(s)),
        None => FieldView::Object,
    }
}

/// Whether the listed items are exactly the fields of `m`, each once.
pub open spec fn lists_items(
    items: Seq<(String, Option<automerge::ScalarValue>)>,
    m: Map<Seq<char>, FieldView>,
) -> bool {
    &&& item_names(items).no_duplicates()
    &&& forall|k: Seq<char>| #[trigger] item_names(items).contains(k) <==> m.contains_key(k)
    &&& forall|i: int| 0 <= i < items.len() ==> item_field((#[trigger] items[i]).1) == m[items[i].0@]
}

/// Calls `Automerge::new`: a document without fields, without heads and
/// without changes, whatever heads a peer has.
#[verifier::external_body]
pub(crate) fn doc_new() -> (doc: automerge::Automerge)
    ensures
        doc_fields(doc) == no_fields(),
        doc_heads(doc).len() == 0,
        forall|have: Seq<Seq<u8>>| (#[trigger] doc_changes(doc, have)).len() == 0,
{
    automerge::Automerge::new()
}

/// Calls `Automerge::clone`: the copy has the fields, the heads and the
/// changes of the document.
#[verifier::external_body]
pub(crate) fn doc_clone(doc: &automerge::Automerge) -> (copy: automerge::Automerge)
    ensures
        doc_fields(copy) == doc_fields(*doc),
        doc_heads(copy) == doc_heads(*doc),
        forall|have: Seq<Seq<u8>>| #[trigger] doc_changes(copy, have) == doc_changes(*doc, have),
{
    doc.clone()
}

/// Calls `Automerge::load`.
#[verifier::external_body]
pub(crate) fn doc_load(bytes: &[u8]) -> (r: Result<automerge::Automerge, automerge::AutomergeError>)
    ensures
        match loaded_fields(bytes@) {
            Some(m) => r matches Ok(doc) && doc_fields(doc) == m,
            None => r is Err,
        },
{
    automerge::Automerge::load(bytes)
}

/// Calls `Automerge::save`, which writes the entire document: `load` reads
/// the bytes back as a document with the same fields.
#[verifier::external_body]
pub(crate) fn doc_save(doc: &automerge::Automerge) -> (bytes: Vec<u8>)
    ensures
        loaded_fields(bytes@) == Some(doc_fields(*doc)),
{
    doc.save()
}

/// Calls `Automerge::merge`, which applies to the document the changes of
/// the other that it lacks. Whether that succeeds, and which fields the
/// document then has, depends on the two documents alone; the other
/// document is read and left as it is.
#[verifier::external_body]
pub(crate) fn doc_merge(doc: &mut automerge::Automerge, other: &mut automerge::Automerge) -> (r:
    Result<(), automerge::AutomergeError>)
    ensures
        r is Ok <==> merged_fields(*old(doc), *old(other)) is Some,
        r is Ok ==> merged_fields(*old(doc), *old(other)) == Some(doc_fields(*final(doc))),
        doc_fields(*final(other)) == doc_fields(*old(other)),
{
    doc.merge(other).map(|_| ())
}

/// Calls `Automerge::get_heads`, which sorts the heads of the document: the
/// result depends on the document alone.
#[verifier::external_body]
pub(crate) fn doc_get_heads(doc: &automerge::Automerge) -> (heads: Vec<automerge::ChangeHash>)
    ensures
        heads@.map_values(|h: automerge::ChangeHash| hash_bytes(h)) == doc_heads(*doc),
{
    doc.get_heads()
}

/// Calls `Automerge::get_changes` and copies the changes, which come in the
/// order of the document's history: the result depends on the document and
/// on the heads given, and on nothing else.
#[verifier::external_body]
pub(crate) fn doc_get_changes(doc: &automerge::Automerge, have_deps: &[automerge::ChangeHash]) -> (changes:
    Vec<automerge::Change>)
    ensures
        changes@.map_values(|c: automerge::Change| change_bytes(c)) == doc_changes(
            *doc,
            have_deps@.map_values(|h: automerge::ChangeHash| hash_bytes(h)),
        ),
{
    doc.get_changes(have_deps).into_iter().cloned().collect()
}

/// Calls `Automerge::apply_changes`. Whether that succeeds, and which
/// fields the document then has, depends on the document and on the
/// changes alone.
#[verifier::external_body]
pub(crate) fn doc_apply_changes(doc: &mut automerge::Automerge, changes: Vec<automerge::Change>) -> (r:
    Result<(), automerge::AutomergeError>)
    ensures
        r is Ok <==> applied_fields(
            *old(doc),
            changes@.map_values(|c: automerge::Change| change_bytes(c)),
        ) is Some,
        r is Ok ==> applied_fields(
            *old(doc),
            changes@.map_values(|c: automerge::Change| change_bytes(c)),
        ) == Some(doc_fields(*final(doc))),
{
    doc.apply_changes(changes)
}

/// Calls `ReadDoc::object_type` on the root and says whether it is a map,
/// which the root of every document is.
#[verifier::external_body]
pub(crate) fn doc_root_is_map(doc: &automerge::Automerge) -> (b: bool)
    ensures
        b,
{
    matches!(automerge::ReadDoc::object_type(doc, automerge::ROOT), Ok(automerge::ObjType::Map))
}

/// Walks the root with `ReadDoc::map_range` and hands out each field: its
/// name, and its scalar value where it holds one.
#[verifier::external_body]
pub(crate) fn doc_root_items(doc: &automerge::Automerge) -> (items: Vec<
    (String, Option<automerge::ScalarValue>),
>)
    ensures
        lists_items(items@, doc_fields(*doc)),
{
    automerge::ReadDoc::map_range(doc, automerge::ROOT, ..).map(
        |item| match item.value {
            automerge::Value::Scalar(s) => (item.key.to_owned(), Some(s.into_owned())),
            automerge::Value::Object(_) => (item.key.to_owned(), None),
        },
    ).collect()
}

/// Takes a scalar value apart, one variant for each of `ScalarValue`. A
/// float goes through `serde_json::Number::from_f64`.
#[verifier::external_body]
pub(crate) fn scalar_shape(s: &automerge::ScalarValue) -> (out: Scalar)
    ensures
        out@ == scalar_model(*s),
{
    match s {
        automerge::ScalarValue::Bytes(b) => Scalar::Bytes(b.clone()),
        automerge::ScalarValue::Str(s) => Scalar::Str(s.to_string()),
        automerge::ScalarValue::Int(i) => Scalar::Int(*i),
        automerge::ScalarValue::Uint(u) => Scalar::Uint(*u),
        automerge::ScalarValue::F64(f) => Scalar::F64(serde_json::Number::from_f64(*f).map(Into::into)),
        automerge::ScalarValue::Counter(_) => Scalar::Counter,
        automerge::ScalarValue::Timestamp(t) => Scalar::Timestamp(*t),
        automerge::ScalarValue::Boolean(b) => Scalar::Boolean(*b),
        automerge::ScalarValue::Unknown { .. } => Scalar::Unknown,
        automerge::ScalarValue::Null => Scalar::Null,
    }
}

/// Calls `ScalarValue::from` on text.
#[verifier::external_body]
pub(crate) fn scalar_from_str(text: &str) -> (s: automerge::ScalarValue)
    ensures
        scalar_model(s) == ScalarView::Str(text@),
{
    automerge::ScalarValue::from(text)
}

/// Calls `ScalarValue::from` on a signed integer.
#[verifier::external_body]
pub(crate) fn scalar_from_i64(i: i64) -> (s: automerge::ScalarValue)
    ensures
        scalar_model(s) == ScalarView::Int(i),
{
    automerge::ScalarValue::from(i)
}

/// Calls `ScalarValue::from` on a truth value.
#[verifier::external_body]
pub(crate) fn scalar_from_bool(b: bool) -> (s: automerge::ScalarValue)
    ensures
        scalar_model(s) == ScalarView::Boolean(b),
{
    automerge::ScalarValue::from(b)
}

/// Calls `Value::as_f64` and makes a float scalar of the result: a float
/// stays what it is, an integer becomes the float nearest to it, and any
/// value that is no number gives nothing.
#[verifier::external_body]
pub(crate) fn scalar_from_json_float(v: &serde_json::Value) -> (r: Option<automerge::ScalarValue>)
    ensures
        match json_model(*v) {
            JsonView::Number(NumberView::PosInt(u)) => r matches Some(s) && scalar_model(s)
                == ScalarView::F64(Some(float_of_u64(u))),
            JsonView::Number(NumberView::NegInt(i)) => r matches Some(s) && scalar_model(s)
                == ScalarView::F64(Some(float_of_i64(i))),
            JsonView::Number(NumberView::Float(bits)) => r matches Some(s) && scalar_model(s)
                == ScalarView::F64(Some(NumberView::Float(bits))),
            _ => r is None,
        },
{
    v.as_f64().map(automerge::ScalarValue::F64)
}

/// Calls `Transactable::put` on the root, under a key that is text. The
/// root is a map and a map takes any scalar under any text: the call
/// succeeds, every other field stays, and the field of the key is there.
/// It holds the value that was put, with one exception that `put` makes:
/// a value that the field holds already is not written again, and the two
/// float zeros count as one value, so a zero put onto the other zero may
/// leave the old zero. The result keeps the type of the call.
#[verifier::external_body]
pub(crate) fn tx_put(
    tx: &mut automerge::transaction::Transaction<'_>,
    key: &str,
    value: automerge::ScalarValue,
) -> (r: Result<(), automerge::AutomergeError>)
    ensures
        r is Ok,
        put_into(tx_fields(*old(tx)), key@, scalar_model(value), tx_fields(*final(tx))),
{
    automerge::transaction::Transactable::put(tx, automerge::ROOT, key, value)
}

/// Calls `base64::Engine::encode` of the standard engine.
#[verifier::external_body]
pub(crate) fn base64_encode(bytes: &[u8]) -> (text: String)
    ensures
        text@ == base64_text(bytes@),
{
    base64::Engine::encode(&base64::engine::general_purpose::STANDARD, bytes)
}

} // verus!
