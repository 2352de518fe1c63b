//! JSON documents: what a `serde_json::Value` holds, as a mathematical value,
//! and the calls into serde_json that read and build them.
use vstd::prelude::*;

verus! {

#[verifier::external_type_specification]
#[verifier::external_body]
pub struct ExJsonValue(serde_json::Value);

#[verifier::external_type_specification]
#[verifier::external_body]
pub struct ExJsonError(serde_json::Error);

/// The contents of a JSON document.
pub enum JsonView {
    Null,
    Bool(bool),
    /// A non-negative integer that fits in a `u64`.
    Uint(u64),
    /// Any other number: negative, fractional or in exponent form.
    OtherNumber,
    Str(Seq<char>),
    Array(Seq<JsonView>),
    /// An object: member names are unique.
    Object(Map<Seq<char>, JsonView>),
}

/// What a serde_json value holds.
pub uninterp spec fn json_of(v: serde_json::Value) -> JsonView;

/// The document serde_json parses a text into, or `None` when the text is not JSON.
pub uninterp spec fn parsed_json(text: Seq<char>) -> Option<JsonView>;

/// `d` holds no number but non-negative integers, down to `depth` levels of nesting.
pub open spec fn integral_within(d: JsonView, depth: nat) -> bool
    decreases depth,
{
    if depth == 0 {
        false
    } else {
        match d {
            JsonView::OtherNumber => false,
            JsonView::Array(items) => forall|i: int| 0 <= i < items.len() ==> integral_within(#[trigger] items[i], (depth - 1) as nat),
            JsonView::Object(m) => forall|k: Seq<char>| m.contains_key(k) ==> integral_within(#[trigger] m[k], (depth - 1) as nat),
            _ => true,
        }
    }
}

/// How deeply a document written for reading back may nest: serde_json's
/// parser refuses input nested 128 arrays or objects deep, and a document
/// within this depth nests fewer than 64.
pub open spec fn round_trip_depth() -> nat {
    64
}

/// A document that holds its numbers within fewer levels also does within more.
pub proof fn lemma_integral_within_deeper(d: JsonView, a: nat, b: nat)
    requires
        a <= b,
        integral_within(d, a),
    ensures
        integral_within(d, b),
    decreases a,
{
    match d {
        JsonView::Array(items) => {
            assert forall|i: int| 0 <= i < items.len() implies integral_within(#[trigger] items[i], (b - 1) as nat) by {
                lemma_integral_within_deeper(items[i], (a - 1) as nat, (b - 1) as nat);
            }
        },
        JsonView::Object(m) => {
            assert forall|k: Seq<char>| m.contains_key(k) implies integral_within(#[trigger] m[k], (b - 1) as nat) by {
                lemma_integral_within_deeper(m[k], (a - 1) as nat, (b - 1) as nat);
            }
        },
        _ => {},
    }
}

/// The object whose members are given in order; a later member wins over an
/// earlier one with the same name.
pub open spec fn members_map(s: Seq<(Seq<char>, JsonView)>) -> Map<Seq<char>, JsonView>
    decreases s.len(),
{
    if s.len() == 0 {
        Map::empty()
    } else {
        members_map(s.drop_last()).insert(s.last().0, s.last().1)
    }
}

/// The views of a sequence of named values.
pub open spec fn member_views(s: Seq<(String, serde_json::Value)>) -> Seq<(Seq<char>, JsonView)> {
    s.map_values(|p: (String, serde_json::Value)| (p.0@, json_of(p.1)))
}

/// The member of an object with this name.
pub open spec fn member(d: JsonView, key: Seq<char>) -> Option<JsonView> {
    match d {
        JsonView::Object(m) => if m.contains_key(key) {
            Some(m[key])
        } else {
            None
        },
        _ => None,
    }
}

/// Relies on `serde_json::from_str::<Value>`: the document a text holds, which
/// depends on the text alone; an error for text that is not JSON.
#[verifier::external_body]
pub(crate) fn parse_json(text: &str) -> (r: Result<serde_json::Value, serde_json::Error>)
    ensures
        match r {
            Ok(v) => parsed_json(text@) == Some(json_of(v)),
            Err(_) => parsed_json(text@) is None,
        },
{
    serde_json::from_str(text)
}

/// Relies on `serde_json::to_string_pretty`: writing a `Value` into a `String`
/// cannot fail, and `serde_json::from_str` gives the document back when it
/// holds no number but non-negative integers and nests less than the
/// parser's recursion limit of 128.
#[verifier::external_body]
pub(crate) fn json_to_pretty(v: &serde_json::Value) -> (r: Result<String, serde_json::Error>)
    ensures
        r is Ok,
        integral_within(json_of(*v), round_trip_depth()) ==> parsed_json(r->Ok_0@) == Some(json_of(*v)),
{
    serde_json::to_string_pretty(v)
}

/// Relies on `serde::de::Error::custom` for `serde_json::Error`: an error
/// carrying this message.
#[verifier::external_body]
pub(crate) fn json_schema_error(msg: &str) -> (r: serde_json::Error) {
    <serde_json::Error as serde::de::Error>::custom(msg)
}

/// Relies on `serde_json::Value::get`: the member of an object with this name;
/// `None` for a missing member or a value that is not an object.
#[verifier::external_body]
pub(crate) fn json_get<'a>(v: &'a serde_json::Value, key: &str) -> (r: Option<&'a serde_json::Value>)
    ensures
        match r {
            Some(x) => member(json_of(*v), key@) == Some(json_of(*x)),
            None => member(json_of(*v), key@) is None,
        },
{
    v.get(key)
}

/// Relies on `serde_json::Value::as_str`: the text of a JSON string.
#[verifier::external_body]
pub(crate) fn json_as_string(v: &serde_json::Value) -> (r: Option<String>)
    ensures
        match json_of(*v) {
            JsonView::Str(s) => r is Some && r->0@ == s,
            _ => r is None,
        },
{
    v.as_str().map(|s| s.to_owned())
}

/// Relies on `serde_json::Value::as_u64`: a non-negative integer that fits in a `u64`.
#[verifier::external_body]
pub(crate) fn json_as_u64(v: &serde_json::Value) -> (r: Option<u64>)
    ensures
        r == match json_of(*v) {
            JsonView::Uint(n) => Some(n),
            _ => None::<u64>,
        },
{
    v.as_u64()
}

/// Relies on `serde_json::Value::as_bool`: a JSON boolean.
#[verifier::external_body]
pub(crate) fn json_as_bool(v: &serde_json::Value) -> (r: Option<bool>)
    ensures
        r == match json_of(*v) {
            JsonView::Bool(b) => Some(b),
            _ => None::<bool>,
        },
{
    v.as_bool()
}

/// Relies on `serde_json::Value::is_null`: whether the value is `null`.
#[verifier::external_body]
pub(crate) fn json_is_null(v: &serde_json::Value) -> (r: bool)
    ensures
        r == (json_of(*v) is Null),
{
    v.is_null()
}

/// Relies on `serde_json::Value::as_array`: the items of a JSON array.
#[verifier::external_body]
pub(crate) fn json_as_array(v: &serde_json::Value) -> (r: Option<&Vec<serde_json::Value>>)
    ensures
        match json_of(*v) {
            JsonView::Array(items) => r is Some && r->0@.map_values(|x: serde_json::Value| json_of(x)) == items,
            _ => r is None,
        },
{
    v.as_array()
}

/// Relies on `serde_json::Value::as_object`: the members of a JSON object,
/// each name once.
#[verifier::external_body]
pub(crate) fn json_members(v: &serde_json::Value) -> (r: Option<Vec<(String, serde_json::Value)>>)
    ensures
        match json_of(*v) {
            JsonView::Object(m) => r is Some && (forall|i: int, j: int|
                0 <= i < j < r->0@.len() ==> r->0@[i].0@ != r->0@[j].0@) && (forall|i: int|
                0 <= i < r->0@.len() ==> m.contains_key(#[trigger] r->0@[i].0@) && m[r->0@[i].0@]
                    == json_of(r->0@[i].1)) && (forall|k: Seq<char>|
                #[trigger] m.contains_key(k) ==> exists|i: int| 0 <= i < r->0@.len() && r->0@[i].0@ == k),
            _ => r is None,
        },
{
    v.as_object().map(|m| m.iter().map(|(k, x)| (k.clone(), x.clone())).collect())
}

/// Relies on `serde_json::Value::String`: a JSON string.
#[verifier::external_body]
pub(crate) fn json_string(s: String) -> (r: serde_json::Value)
    ensures
        json_of(r) == JsonView::Str(s@),
{
    serde_json::Value::String(s)
}

/// Relies on `From<u64> for serde_json::Value`: a JSON number.
#[verifier::external_body]
pub(crate) fn json_u64(n: u64) -> (r: serde_json::Value)
    ensures
        json_of(r) == JsonView::Uint(n),
{
    serde_json::Value::from(n)
}

/// Relies on `serde_json::Value::Bool`: a JSON boolean.
#[verifier::external_body]
pub(crate) fn json_bool(b: bool) -> (r: serde_json::Value)
    ensures
        json_of(r) == JsonView::Bool(b),
{
    serde_json::Value::Bool(b)
}

/// Relies on `serde_json::Value::Null`.
#[verifier::external_body]
pub(crate) fn json_null() -> (r: serde_json::Value)
    ensures
        json_of(r) == JsonView::Null,
{
    serde_json::Value::Null
}

/// Relies on `serde_json::Value::Array`: a JSON array of these items.
#[verifier::external_body]
pub(crate) fn json_array(items: Vec<serde_json::Value>) -> (r: serde_json::Value)
    ensures
        json_of(r) == JsonView::Array(items@.map_values(|x: serde_json::Value| json_of(x))),
{
    serde_json::Value::Array(items)
}

/// Relies on `serde_json::Value::Object` built by collecting the members into
/// a `serde_json::Map`, where a later member replaces an earlier one of the same name.
#[verifier::external_body]
pub(crate) fn json_object(members: Vec<(String, serde_json::Value)>) -> (r: serde_json::Value)
    ensures
        json_of(r) == JsonView::Object(members_map(member_views(members@))),
{
    serde_json::Value::Object(members.into_iter().collect())
}

/// In an object whose member names are all different, each member is found under its name.
pub proof fn lemma_members_map_index(s: Seq<(Seq<char>, JsonView)>, i: int)
    requires
        forall|a: int, b: int| 0 <= a < b < s.len() ==> s[a].0 != s[b].0,
        0 <= i < s.len(),
    ensures
        members_map(s).contains_key(s[i].0),
        members_map(s)[s[i].0] == s[i].1,
    decreases s.len(),
{
    if i < s.len() - 1 {
        let p = s.drop_last();
        assert(p[i] == s[i]);
        lemma_members_map_index(p, i);
    }
}

} // verus!
