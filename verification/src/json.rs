//! JSON values. The values themselves, their text and their parser belong to
//! `serde_json`; this module says what the library relies on.

use vstd::prelude::*;

verus! {

/// `serde_json::Value`. Nothing inside it is seen here; `json_model` says
/// what it holds.
#[verifier::external_type_specification]
#[verifier::external_body]
pub struct ExJsonValue(serde_json::Value);

/// A JSON number: a non-negative integer, a negative integer, or a finite
/// float, held by the 64 bits of its IEEE 754 form.
pub enum NumberView {
    PosInt(u64),
    NegInt(i64),
    Float(u64),
}

/// What a JSON value holds. The fields of an object are a map: a
/// `serde_json::Map` holds one value for each name.
pub enum JsonView {
    Null,
    Bool(bool),
    Number(NumberView),
    String(Seq<char>),
    Array(Seq<JsonView>),
    Object(Map<Seq<char>, JsonView>),
}

impl NumberView {
    /// The number of a signed integer.
    pub open spec fn of_i64(i: i64) -> NumberView {
        if i < 0 {
            NumberView::NegInt(i)
        } else {
            NumberView::PosInt(i as u64)
        }
    }

    /// The number as a signed 64-bit integer, where it is one.
    pub open spec fn as_i64(self) -> Option<i64> {
        match self {
            NumberView::PosInt(u) => if u <= i64::MAX as u64 {
                Some(u as i64)
            } else {
                None
            },
            NumberView::NegInt(i) => Some(i),
            NumberView::Float(_) => None,
        }
    }
}

impl JsonView {
    /// The fields of an object; no fields for any other value.
    pub open spec fn fields(self) -> Map<Seq<char>, JsonView> {
        match self {
            JsonView::Object(m) => m,
            _ => Map::empty(),
        }
    }

    /// The field `key` of an object, where it has one.
    pub open spec fn field(self, key: Seq<char>) -> Option<JsonView> {
        if self.fields().contains_key(key) {
            Some(self.fields()[key])
        } else {
            None
        }
    }
}

/// What a `serde_json::Value` holds.
pub uninterp spec fn json_model(v: serde_json::Value) -> JsonView;

/// The compact JSON text of a value, as `serde_json::to_vec` writes it. The
/// fields of an object are written in the order of their names, in which a
/// `serde_json::Map` keeps them: the text depends on what the value holds
/// and on nothing else.
pub uninterp spec fn json_text(v: JsonView) -> Seq<u8>;

/// The indented JSON text of a value, as `serde_json::to_vec_pretty` writes
/// it, with the fields of an object in the order of their names.
pub uninterp spec fn json_pretty_text(v: JsonView) -> Seq<u8>;

/// The value that `serde_json::from_slice` reads from a text, if it reads one.
pub uninterp spec fn json_parse(text: Seq<u8>) -> Option<JsonView>;

/// Whether the indented text of a value reads back as the value. Text
/// that `serde_json` wrote is text that it reads; that it reads the same
/// value is for it to keep, and is not claimed here.
pub open spec fn pretty_text_reads_back(v: JsonView) -> bool {
    json_parse(json_pretty_text(v)) == Some(v)
}

/// The names of a list of fields.
pub open spec fn field_names(entries: Seq<(String, serde_json::Value)>) -> Seq<Seq<char>> {
    entries.map_values(|e: (String, serde_json::Value)| e.0@)
}

/// Whether the listed fields are exactly the fields of `m`, each once.
pub open spec fn lists_fields(
    entries: Seq<(String, serde_json::Value)>,
    m: Map<Seq<char>, JsonView>,
) -> bool {
    &&& field_names(entries).no_duplicates()
    &&& forall|k: Seq<char>| #[trigger] field_names(entries).contains(k) <==> m.contains_key(k)
    &&& forall|i: int|
        0 <= i < entries.len() ==> json_model((#[trigger] entries[i]).1) == m[entries[i].0@]
}

/// Calls `Value::is_object`.
#[verifier::external_body]
pub(crate) fn json_is_object(v: &serde_json::Value) -> (b: bool)
    ensures
        b == (json_model(*v) is Object),
{
    v.is_object()
}

/// Calls `Value::as_str`: the text of a string value, nothing for any other.
#[verifier::external_body]
pub(crate) fn json_as_str(v: &serde_json::Value) -> (r: Option<&str>)
    ensures
        match json_model(*v) {
            JsonView::String(s) => r matches Some(t) && t@ == s,
            _ => r is None,
        },
{
    v.as_str()
}

/// Calls `Value::as_i64`: an integer that fits 64 signed bits, nothing for
/// any other value.
#[verifier::external_body]
pub(crate) fn json_as_i64(v: &serde_json::Value) -> (r: Option<i64>)
    ensures
        r == match json_model(*v) {
            JsonView::Number(n) => n.as_i64(),
            _ => None,
        },
{
    v.as_i64()
}

/// Calls `Value::as_bool`.
#[verifier::external_body]
pub(crate) fn json_as_bool(v: &serde_json::Value) -> (r: Option<bool>)
    ensures
        r == match json_model(*v) {
            JsonView::Bool(b) => Some(b),
            _ => None,
        },
{
    v.as_bool()
}

/// Calls `Value::is_number`.
#[verifier::external_body]
pub(crate) fn json_is_number(v: &serde_json::Value) -> (b: bool)
    ensures
        b == (json_model(*v) is Number),
{
    v.is_number()
}

/// Calls `Value::is_null`.
#[verifier::external_body]
pub(crate) fn json_is_null(v: &serde_json::Value) -> (b: bool)
    ensures
        b == (json_model(*v) is Null),
{
    v.is_null()
}

/// Calls `Value::as_u64`: a non-negative integer, nothing for any other
/// value.
#[verifier::external_body]
pub(crate) fn json_as_u64(v: &serde_json::Value) -> (r: Option<u64>)
    ensures
        r == match json_model(*v) {
            JsonView::Number(NumberView::PosInt(u)) => Some(u),
            _ => None,
        },
{
    v.as_u64()
}

/// Calls `Value::get` with a key: the field of that name where the value is
/// an object that has it.
#[verifier::external_body]
pub(crate) fn json_get<'a>(v: &'a serde_json::Value, key: &str) -> (r: Option<&'a serde_json::Value>)
    ensures
        match json_model(*v).field(key@) {
            Some(f) => r matches Some(x) && json_model(*x) == f,
            None => r is None,
        },
{
    v.get(key)
}

/// Calls `Value::as_array`: the items of an array, in order.
#[verifier::external_body]
pub(crate) fn json_as_array(v: &serde_json::Value) -> (r: Option<&Vec<serde_json::Value>>)
    ensures
        match json_model(*v) {
            JsonView::Array(items) => r matches Some(xs) && xs@.len() == items.len() && forall|
                i: int,
            |
                0 <= i < items.len() ==> json_model(#[trigger] xs@[i]) == items[i],
            _ => r is None,
        },
{
    v.as_array()
}

/// Walks the `serde_json::Map` of an object with `iter` and hands out a copy
/// of each field; no fields for a value that is no object.
#[verifier::external_body]
pub(crate) fn json_entries(v: &serde_json::Value) -> (entries: Vec<(String, serde_json::Value)>)
    ensures
        lists_fields(entries@, json_model(*v).fields()),
{
    match v.as_object() {
        Some(m) => m.iter().map(|(k, x)| (k.clone(), x.clone())).collect(),
        None => Vec::new(),
    }
}

/// Calls `Value::clone`.
#[verifier::external_body]
pub(crate) fn json_clone(v: &serde_json::Value) -> (copy: serde_json::Value)
    ensures
        json_model(copy) == json_model(*v),
{
    v.clone()
}

/// Makes `Value::Null`.
#[verifier::external_body]
pub(crate) fn json_null() -> (v: serde_json::Value)
    ensures
        json_model(v) == JsonView::Null,
{
    serde_json::Value::Null
}

/// Makes `Value::Bool`.
#[verifier::external_body]
pub(crate) fn json_bool(b: bool) -> (v: serde_json::Value)
    ensures
        json_model(v) == JsonView::Bool(b),
{
    serde_json::Value::Bool(b)
}

/// Makes `Value::String`.
#[verifier::external_body]
pub(crate) fn json_string(s: &str) -> (v: serde_json::Value)
    ensures
        json_model(v) == JsonView::String(s@),
{
    serde_json::Value::String(s.to_owned())
}

/// Calls `Value::from` on a signed integer, which goes through
/// `Number::from`: negative numbers and the others are told apart.
#[verifier::external_body]
pub(crate) fn json_from_i64(i: i64) -> (v: serde_json::Value)
    ensures
        json_model(v) == JsonView::Number(NumberView::of_i64(i)),
{
    serde_json::Value::from(i)
}

/// Calls `Value::from` on an unsigned integer.
#[verifier::external_body]
pub(crate) fn json_from_u64(u: u64) -> (v: serde_json::Value)
    ensures
        json_model(v) == JsonView::Number(NumberView::PosInt(u)),
{
    serde_json::Value::from(u)
}

/// Makes `Value::Array` of the given items.
#[verifier::external_body]
pub(crate) fn json_array(items: Vec<serde_json::Value>) -> (v: serde_json::Value)
    ensures
        json_model(v) == JsonView::Array(Seq::new(items@.len(), |i: int| json_model(items@[i]))),
{
    serde_json::Value::Array(items)
}

/// Makes an object without fields: `Value::Object` of `Map::new`.
#[verifier::external_body]
pub(crate) fn json_empty_object() -> (v: serde_json::Value)
    ensures
        json_model(v) == JsonView::Object(Map::empty()),
{
    serde_json::Value::Object(serde_json::Map::new())
}

/// Calls `Map::insert` on the fields of an object: the field is added, or
/// replaced where the object has one of that name. A value that is no
/// object is left as it is.
#[verifier::external_body]
pub(crate) fn json_set_field(obj: &mut serde_json::Value, key: &str, value: serde_json::Value)
    ensures
        json_model(*final(obj)) == match json_model(*old(obj)) {
            JsonView::Object(m) => JsonView::Object(m.insert(key@, json_model(value))),
            other => other,
        },
{
    if let Some(m) = obj.as_object_mut() {
        m.insert(key.to_owned(), value);
    }
}

/// Calls `serde_json::to_vec`. Writing a `Value` into memory cannot fail: its
/// keys are strings, its numbers are finite, and nothing is read or sent.
#[verifier::external_body]
pub(crate) fn json_to_vec(v: &serde_json::Value) -> (r: Result<Vec<u8>, String>)
    ensures
        match r {
            Ok(bytes) => bytes@ == json_text(json_model(*v)),
            Err(_) => false,
        },
{
    serde_json::to_vec(v).map_err(|e| e.to_string())
}

/// Calls `serde_json::to_vec_pretty`, which cannot fail on a `Value` either.
#[verifier::external_body]
pub(crate) fn json_to_vec_pretty(v: &serde_json::Value) -> (r: Result<Vec<u8>, String>)
    ensures
        match r {
            Ok(bytes) => bytes@ == json_pretty_text(json_model(*v)),
            Err(_) => false,
        },
{
    serde_json::to_vec_pretty(v).map_err(|e| e.to_string())
}

/// Calls `serde_json::to_string_pretty`: the same text as `to_vec_pretty`, as
/// a string.
#[verifier::external_body]
pub(crate) fn json_to_string_pretty(v: &serde_json::Value) -> (r: Result<String, String>)
    ensures
        match r {
            Ok(s) => vstd::utf8::encode_utf8(s@) == json_pretty_text(json_model(*v)),
            Err(_) => false,
        },
{
    serde_json::to_string_pretty(v).map_err(|e| e.to_string())
}

/// Calls `serde_json::from_slice`. An error comes back as its message.
#[verifier::external_body]
pub(crate) fn json_from_slice(text: &[u8]) -> (r: Result<serde_json::Value, String>)
    ensures
        match json_parse(text@) {
            Some(m) => r matches Ok(v) && json_model(v) == m,
            None => r is Err,
        },
{
    serde_json::from_slice(text).map_err(|e: serde_json::Error| e.to_string())
}

/// Calls `serde_json::from_str`, which reads the bytes of the string as
/// `from_slice` does. An error comes back as its message.
#[verifier::external_body]
pub(crate) fn json_from_str(text: &str) -> (r: Result<serde_json::Value, String>)
    ensures
        match json_parse(vstd::utf8::encode_utf8(text@)) {
            Some(m) => r matches Ok(v) && json_model(v) == m,
            None => r is Err,
        },
{
    serde_json::from_str(text).map_err(|e: serde_json::Error| e.to_string())
}

} // verus!
