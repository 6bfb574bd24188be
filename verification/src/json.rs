//! JSON documents as the classifier and the exporter see them: a mathematical
//! model of a document, and the calls into `serde_json` stated over it.

use vstd::prelude::*;

verus! {

/// A JSON document as a mathematical value.
pub enum Json {
    Null,
    Bool(bool),
    /// A number stored as an integer.
    Int(int),
    /// A number stored as a double, identified by its bit pattern.
    Real(int),
    Text(Seq<char>),
    Array(Seq<Json>),
    /// An object: at most one value under a key, and no order among the
    /// entries but that of their keys.
    Object(Map<Seq<char>, Json>),
}

#[verifier::external_type_specification]
#[verifier::external_body]
pub struct ExValue(serde_json::Value);

#[verifier::external_type_specification]
#[verifier::external_body]
#[verifier::reject_recursive_types(K)]
#[verifier::reject_recursive_types(V)]
pub struct ExEntries<K, V>(serde_json::Map<K, V>);

/// The entries of a JSON object as `serde_json` holds them.
pub type Entries = serde_json::Map<String, serde_json::Value>;

/// The entries that a `serde_json::Map` holds, by key.
pub uninterp spec fn json_entries(m: serde_json::Map<String, serde_json::Value>) -> Map<Seq<char>, Json>;

/// The document that a `serde_json::Value` holds.
pub uninterp spec fn json_view(v: serde_json::Value) -> Json;

/// What `serde_json::from_str` makes of a text: the document, or `None` where
/// the text is rejected.
pub uninterp spec fn json_parse(text: Seq<char>) -> Option<Json>;

/// What `serde_json::to_string_pretty` prints for a document, or `None` where
/// it reports an error. The entries of an object are printed in the order of
/// their keys, so the document alone decides the text.
pub uninterp spec fn json_pretty(doc: Json) -> Option<Seq<char>>;

/// The documents that a list of values holds, in order.
pub open spec fn json_views(items: Seq<serde_json::Value>) -> Seq<Json> {
    Seq::new(items.len(), |i: int| json_view(items[i]))
}

/// Calls `serde_json::from_str` for a `Value`. Trusted: the outcome is a
/// function of the text alone, named `json_parse`; nothing is claimed about
/// which texts are accepted.
#[verifier::external_body]
pub(crate) fn parse_document(text: &str) -> (r: Option<serde_json::Value>)
    ensures
        match r {
            Some(v) => json_parse(text@) == Some(json_view(v)),
            None => json_parse(text@) is None,
        },
{
    serde_json::from_str::<serde_json::Value>(text).ok()
}

/// Calls `Value::get` with a position. Trusted: it yields the element at that
/// position of an array, and nothing for any other document or position.
#[verifier::external_body]
pub(crate) fn element_at(v: &serde_json::Value, index: usize) -> (r: Option<&serde_json::Value>)
    ensures
        match r {
            Some(e) => json_view(*v) matches Json::Array(items) && index < items.len()
                && json_view(*e) == items[index as int],
            None => !(json_view(*v) matches Json::Array(items) && index < items.len()),
        },
{
    v.get(index)
}

/// Calls `Value::get` with a key. Trusted: it yields the value stored under
/// that key of an object, and nothing for any other document or a missing key.
#[verifier::external_body]
pub(crate) fn member_of<'a>(v: &'a serde_json::Value, key: &str) -> (r: Option<&'a serde_json::Value>)
    ensures
        match r {
            Some(e) => json_view(*v) matches Json::Object(fields) && fields.dom().contains(key@)
                && json_view(*e) == fields[key@],
            None => !(json_view(*v) matches Json::Object(fields) && fields.dom().contains(key@)),
        },
{
    v.get(key)
}

/// Calls `Value::as_i64`. Trusted: it yields the number where the document is
/// an integer that fits in 64 signed bits, and nothing otherwise.
#[verifier::external_body]
pub(crate) fn integer_of(v: &serde_json::Value) -> (r: Option<i64>)
    ensures
        match r {
            Some(n) => json_view(*v) == Json::Int(n as int),
            None => !(json_view(*v) matches Json::Int(n) && i64::MIN <= n <= i64::MAX),
        },
{
    v.as_i64()
}

/// Calls `Value::as_str`. Trusted: it yields the text of a string document,
/// and nothing for any other document.
#[verifier::external_body]
pub(crate) fn text_of(v: &serde_json::Value) -> (r: Option<&str>)
    ensures
        match r {
            Some(s) => json_view(*v) == Json::Text(s@),
            None => !(json_view(*v) is Text),
        },
{
    v.as_str()
}

/// Calls `Value::from` on an unsigned integer. Trusted: the value is that
/// integer as a number.
#[verifier::external_body]
pub(crate) fn value_of_u64(n: u64) -> (r: serde_json::Value)
    ensures
        json_view(r) == Json::Int(n as int),
{
    serde_json::Value::from(n)
}

/// Calls `Value::from` on a string slice. Trusted: the value is a string with
/// the same characters.
#[verifier::external_body]
pub(crate) fn value_of_text(text: &str) -> (r: serde_json::Value)
    ensures
        json_view(r) == Json::Text(text@),
{
    serde_json::Value::from(text)
}

/// Calls `Map::new`. Trusted: the map has no entries.
#[verifier::external_body]
pub(crate) fn empty_entries() -> (r: Entries)
    ensures
        json_entries(r) == (Map::<Seq<char>, Json>::empty()),
{
    serde_json::Map::new()
}

/// Calls `Map::insert`. Trusted: the entry under the key is set to the value,
/// replacing one that was there, and the other entries stay.
#[verifier::external_body]
pub(crate) fn insert_entry(entries: &mut Entries, key: &str, value: serde_json::Value)
    ensures
        json_entries(*final(entries)) == json_entries(*old(entries)).insert(key@, json_view(value)),
{
    entries.insert(key.to_owned(), value);
}

/// Wraps a map in `Value::Object`. Trusted: the value is the object with the
/// map's entries.
#[verifier::external_body]
pub(crate) fn object_of(entries: Entries) -> (r: serde_json::Value)
    ensures
        json_view(r) == Json::Object(json_entries(entries)),
{
    serde_json::Value::Object(entries)
}

/// Wraps a list of values in `Value::Array`. Trusted: the value is the array
/// of the same documents in the same order.
#[verifier::external_body]
pub(crate) fn array_of(items: Vec<serde_json::Value>) -> (r: serde_json::Value)
    ensures
        json_view(r) == Json::Array(json_views(items@)),
{
    serde_json::Value::Array(items)
}

/// Calls `serde_json::to_string_pretty` on a `Value`. Trusted: the outcome is
/// a function of the document alone, named `json_pretty`; nothing is claimed
/// about what is printed, nor that printing succeeds.
#[verifier::external_body]
pub(crate) fn pretty_text(v: &serde_json::Value) -> (r: Option<String>)
    ensures
        match r {
            Some(text) => json_pretty(json_view(*v)) == Some(text@),
            None => json_pretty(json_view(*v)) is None,
        },
{
    serde_json::to_string_pretty(v).ok()
}

} // verus!
