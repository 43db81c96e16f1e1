//! JSON documents as the library reads them.
//!
//! Parsing and printing are done by `serde_json`; the library walks the
//! parsed tree. A `JsonValue` is viewed as a `JsonView`, which holds
//! sequences where the value holds vectors. Object members come in the order
//! `serde_json` keeps them (sorted by key, each key once). Numbers are never
//! inspected, only carried.

use vstd::prelude::*;
use crate::text::chars_of;

verus! {

#[verifier::external_type_specification]
#[verifier::external_body]
pub struct ExSerdeJsonValue(serde_json::Value);

#[verifier::external_type_specification]
#[verifier::external_body]
pub struct ExSerdeJsonNumber(serde_json::Number);

#[derive(Debug, PartialEq)]
pub enum JsonValue {
    Null,
    Bool(bool),
    Number(serde_json::Number),
    Text(String),
    Array(Vec<JsonValue>),
    Object(Vec<JsonMember>),
}

#[derive(Debug, PartialEq)]
pub struct JsonMember {
    pub key: String,
    pub value: JsonValue,
}

/// The mathematical form of a JSON value.
pub enum JsonView {
    Null,
    Bool(bool),
    Number(serde_json::Number),
    Text(Seq<char>),
    Array(Seq<JsonView>),
    Object(Seq<(Seq<char>, JsonView)>),
}

impl JsonValue {
    pub open spec fn view_of(self) -> JsonView
        decreases self,
    {
        match self {
            JsonValue::Null => JsonView::Null,
            JsonValue::Bool(b) => JsonView::Bool(b),
            JsonValue::Number(n) => JsonView::Number(n),
            JsonValue::Text(s) => JsonView::Text(s@),
            JsonValue::Array(items) => JsonView::Array(
                Seq::new(
                    items@.len(),
                    |i: int|
                        if 0 <= i < items@.len() {
                            items@[i].view_of()
                        } else {
                            JsonView::Null
                        },
                ),
            ),
            JsonValue::Object(members) => JsonView::Object(
                Seq::new(
                    members@.len(),
                    |i: int|
                        if 0 <= i < members@.len() {
                            (members@[i].key@, members@[i].value.view_of())
                        } else {
                            (Seq::empty(), JsonView::Null)
                        },
                ),
            ),
        }
    }
}

impl View for JsonValue {
    type V = JsonView;

    open spec fn view(&self) -> JsonView {
        self.view_of()
    }
}

/// The JSON value `serde_json` parses from a text, if the text is JSON.
pub uninterp spec fn json_parse(text: Seq<char>) -> Option<JsonView>;

/// The compact JSON text `serde_json` prints for a value.
pub uninterp spec fn json_compact(value: JsonView) -> Seq<char>;

/// Moves a parsed `serde_json::Value` into the library's form, variant by
/// variant; object members keep the map's order.
#[verifier::external_body]
fn from_serde(v: serde_json::Value) -> JsonValue {
    match v {
        serde_json::Value::Null => JsonValue::Null,
        serde_json::Value::Bool(b) => JsonValue::Bool(b),
        serde_json::Value::Number(n) => JsonValue::Number(n),
        serde_json::Value::String(s) => JsonValue::Text(s),
        serde_json::Value::Array(a) => JsonValue::Array(a.into_iter().map(from_serde).collect()),
        serde_json::Value::Object(o) => JsonValue::Object(
            o.into_iter().map(|(key, x)| JsonMember { key, value: from_serde(x) }).collect(),
        ),
    }
}

/// Copies a value of the library's form into a `serde_json::Value`,
/// variant by variant.
#[verifier::external_body]
fn to_serde(v: &JsonValue) -> serde_json::Value {
    match v {
        JsonValue::Null => serde_json::Value::Null,
        JsonValue::Bool(b) => serde_json::Value::Bool(*b),
        JsonValue::Number(n) => serde_json::Value::Number(n.clone()),
        JsonValue::Text(s) => serde_json::Value::String(s.clone()),
        JsonValue::Array(a) => serde_json::Value::Array(a.iter().map(to_serde).collect()),
        JsonValue::Object(ms) => serde_json::Value::Object(
            ms.iter().map(|m| (m.key.clone(), to_serde(&m.value))).collect(),
        ),
    }
}

/// Parses a text as JSON with `serde_json::from_str::<serde_json::Value>`:
/// the result is the value named `json_parse` of the text; `None` when
/// `serde_json` rejects the text.
#[verifier::external_body]
pub fn parse_json(text: &str) -> (r: Option<JsonValue>)
    ensures
        match r {
            Some(v) => json_parse(text@) == Some(v@),
            None => json_parse(text@) is None,
        },
{
    serde_json::from_str::<serde_json::Value>(text).ok().map(from_serde)
}

/// Prints a value as compact JSON (`serde_json::Value`'s `Display`): the
/// text named `json_compact` of the value.
#[verifier::external_body]
pub fn to_json_text(value: &JsonValue) -> (s: String)
    ensures
        s@ == json_compact(value@),
{
    to_serde(value).to_string()
}

/// The value of the first member named `key` at or after position `i`.
pub open spec fn member_from(ms: Seq<(Seq<char>, JsonView)>, key: Seq<char>, i: int) -> Option<
    JsonView,
>
    decreases ms.len() - i,
{
    if i < 0 || i >= ms.len() {
        None
    } else if ms[i].0 == key {
        Some(ms[i].1)
    } else {
        member_from(ms, key, i + 1)
    }
}

/// The member `key` of an object (`serde_json::Value::get` with a string
/// key); `None` for any other value.
pub open spec fn json_get(v: JsonView, key: Seq<char>) -> Option<JsonView> {
    match v {
        JsonView::Object(ms) => member_from(ms, key, 0),
        _ => None,
    }
}

/// `Value::as_str` of an optional value.
pub open spec fn as_text(v: Option<JsonView>) -> Option<Seq<char>> {
    match v {
        Some(JsonView::Text(s)) => Some(s),
        _ => None,
    }
}

/// `Value::as_array` of an optional value.
pub open spec fn as_array(v: Option<JsonView>) -> Option<Seq<JsonView>> {
    match v {
        Some(JsonView::Array(items)) => Some(items),
        _ => None,
    }
}

/// The view of an optional reference to a value.
pub open spec fn opt_json(v: Option<&JsonValue>) -> Option<JsonView> {
    match v {
        Some(x) => Some(x@),
        None => None,
    }
}

/// The member `key` of an object value.
pub fn get<'a>(v: &'a JsonValue, key: &str) -> (r: Option<&'a JsonValue>)
    ensures
        opt_json(r) == json_get(v@, key@),
{
    match v {
        JsonValue::Object(members) => {
            let k = key.to_owned();
            let ghost ms = v@->Object_0;
            assert(json_get(v@, key@) == member_from(ms, key@, 0));
            let mut i: usize = 0;
            while i < members.len()
                invariant
                    i <= members@.len(),
                    ms.len() == members@.len(),
                    forall|j: int|
                        0 <= j < ms.len() ==> #[trigger] ms[j] == (
                            members@[j].key@,
                            members@[j].value@,
                        ),
                    k@ == key@,
                    json_get(v@, key@) == member_from(ms, key@, i as int),
                decreases members@.len() - i,
            {
                assert(ms[i as int] == (members@[i as int].key@, members@[i as int].value@));
                if members[i].key == k {
                    return Some(&members[i].value);
                }
                i = i + 1;
            }
            None
        },
        _ => None,
    }
}

/// The text of a string value.
pub fn text_of(v: Option<&JsonValue>) -> (r: Option<&str>)
    ensures
        match r {
            Some(s) => as_text(opt_json(v)) == Some(s@),
            None => as_text(opt_json(v)) is None,
        },
{
    match v {
        Some(JsonValue::Text(s)) => Some(s.as_str()),
        _ => None,
    }
}

/// The items of an array value.
pub fn items_of(v: Option<&JsonValue>) -> (r: Option<&Vec<JsonValue>>)
    ensures
        match r {
            Some(items) => as_array(opt_json(v)) == Some(items@.map_values(|x: JsonValue| x@)),
            None => as_array(opt_json(v)) is None,
        },
{
    match v {
        Some(JsonValue::Array(items)) => {
            assert(v.unwrap()@->Array_0 =~= items@.map_values(|x: JsonValue| x@));
            Some(items)
        },
        _ => None,
    }
}

/// The views of a vector's values.
pub open spec fn views(items: Seq<JsonValue>) -> Seq<JsonView> {
    items.map_values(|x: JsonValue| x@)
}

/// The keys and value views of object members.
pub open spec fn entries_of(ms: Seq<JsonMember>) -> Seq<(Seq<char>, JsonView)> {
    ms.map_values(|m: JsonMember| (m.key@, m.value@))
}

/// A string value.
pub fn text_value(s: &str) -> (v: JsonValue)
    ensures
        v@ == JsonView::Text(s@),
{
    JsonValue::Text(s.to_owned())
}

/// An array of the given values.
pub fn array_of(items: Vec<JsonValue>) -> (v: JsonValue)
    ensures
        v@ == JsonView::Array(views(items@)),
{
    let v = JsonValue::Array(items);
    assert(v@->Array_0 =~= views(items@));
    v
}

/// An object of the given members.
pub fn object_of(members: Vec<JsonMember>) -> (v: JsonValue)
    ensures
        v@ == JsonView::Object(entries_of(members@)),
{
    let v = JsonValue::Object(members);
    assert(v@->Object_0 =~= entries_of(members@));
    v
}

/// An object with one member.
pub fn object1(k1: &str, v1: JsonValue) -> (v: JsonValue)
    ensures
        v@ == JsonView::Object(seq![(k1@, v1@)]),
{
    let ghost e = seq![(k1@, v1@)];
    let mut ms: Vec<JsonMember> = Vec::new();
    ms.push(JsonMember { key: k1.to_owned(), value: v1 });
    assert(entries_of(ms@) =~= e);
    object_of(ms)
}

/// An object with two members.
pub fn object2(k1: &str, v1: JsonValue, k2: &str, v2: JsonValue) -> (v: JsonValue)
    ensures
        v@ == JsonView::Object(seq![(k1@, v1@), (k2@, v2@)]),
{
    let ghost e = seq![(k1@, v1@), (k2@, v2@)];
    let mut ms: Vec<JsonMember> = Vec::new();
    ms.push(JsonMember { key: k1.to_owned(), value: v1 });
    ms.push(JsonMember { key: k2.to_owned(), value: v2 });
    assert(entries_of(ms@) =~= e);
    object_of(ms)
}

/// An object with three members.
pub fn object3(k1: &str, v1: JsonValue, k2: &str, v2: JsonValue, k3: &str, v3: JsonValue) -> (v:
    JsonValue)
    ensures
        v@ == JsonView::Object(seq![(k1@, v1@), (k2@, v2@), (k3@, v3@)]),
{
    let ghost e = seq![(k1@, v1@), (k2@, v2@), (k3@, v3@)];
    let mut ms: Vec<JsonMember> = Vec::new();
    ms.push(JsonMember { key: k1.to_owned(), value: v1 });
    ms.push(JsonMember { key: k2.to_owned(), value: v2 });
    ms.push(JsonMember { key: k3.to_owned(), value: v3 });
    assert(entries_of(ms@) =~= e);
    object_of(ms)
}

} // verus!
