//! The top level of a webhook JSON body: an object whose members are kept as
//! (key, value) pairs, each value reduced to what the payload reader needs.
use vstd::prelude::*;
use vstd::string::*;

use crate::text::str_eq;

verus! {

/// One member value of the top-level JSON object.
///
/// Scalars are kept as they are; a JSON number is kept as an unsigned integer
/// when it is a non-negative integer that fits in `u64`, and as its JSON text
/// otherwise. Arrays and objects are kept as their compact JSON text.
#[derive(Clone, Debug, PartialEq, Eq)]
pub enum JsonValue {
    /// `null`.
    Null,
    /// `true` or `false`.
    Bool(bool),
    /// A non-negative integer representable as `u64`.
    Unsigned(u64),
    /// Any other number (negative or fractional), as JSON text.
    OtherNumber(String),
    /// A string.
    String(String),
    /// An array or an object, as compact JSON text.
    Composite(String),
}

/// The mathematical view of a [`JsonValue`]: texts as character sequences.
pub enum JsonView {
    Null,
    Bool(bool),
    Unsigned(u64),
    OtherNumber(Seq<char>),
    String(Seq<char>),
    Composite(Seq<char>),
}

impl View for JsonValue {
    type V = JsonView;

    open spec fn view(&self) -> JsonView {
        match self {
            JsonValue::Null => JsonView::Null,
            JsonValue::Bool(b) => JsonView::Bool(*b),
            JsonValue::Unsigned(u) => JsonView::Unsigned(*u),
            JsonValue::OtherNumber(t) => JsonView::OtherNumber(t@),
            JsonValue::String(s) => JsonView::String(s@),
            JsonValue::Composite(t) => JsonView::Composite(t@),
        }
    }
}

/// The members of the object that `bytes` holds as JSON, by view, in the
/// order the JSON library yields them; `None` when `bytes` is not a JSON
/// object.
pub uninterp spec fn spec_json_object(bytes: Seq<u8>) -> Option<Seq<(Seq<char>, JsonView)>>;

/// Reads `bytes` as a JSON object through `serde_json::from_slice` into a
/// `serde_json::Map`, and converts each member value one for one.
///
/// Trusted: the members, taken by view, are claimed to be a function of
/// `bytes` alone, named [`spec_json_object`], and, being the entries of a
/// map, to have distinct keys; nothing more is stated of the JSON grammar.
#[verifier::external_body]
pub(crate) fn read_json_object(bytes: &[u8]) -> (res: Option<Vec<(String, JsonValue)>>)
    ensures
        res is Some <==> spec_json_object(bytes@) is Some,
        res matches Some(fields) ==> spec_json_object(bytes@) == Some(fields_view(fields@)),
        res matches Some(fields) ==> forall|i: int, j: int|
            0 <= i < fields@.len() && 0 <= j < fields@.len() && i != j ==> #[trigger] fields@[i].0@
                != #[trigger] fields@[j].0@,
{
    let object = serde_json::from_slice::<serde_json::Map<String, serde_json::Value>>(bytes).ok()?;
    Some(object.into_iter().map(|(key, value)| (key, match value {
        serde_json::Value::Null => JsonValue::Null,
        serde_json::Value::Bool(b) => JsonValue::Bool(b),
        serde_json::Value::Number(n) => match n.as_u64() {
            Some(u) => JsonValue::Unsigned(u),
            None => JsonValue::OtherNumber(n.to_string()),
        },
        serde_json::Value::String(s) => JsonValue::String(s),
        other => JsonValue::Composite(other.to_string()),
    })).collect())
}

/// The value of the first member named `key`.
pub open spec fn field(fields: Seq<(String, JsonValue)>, key: Seq<char>) -> Option<JsonValue>
    decreases fields.len(),
{
    if fields.len() == 0 {
        None
    } else if fields[0].0@ == key {
        Some(fields[0].1)
    } else {
        field(fields.drop_first(), key)
    }
}

/// The members with their keys and values taken by view.
pub open spec fn fields_view(fields: Seq<(String, JsonValue)>) -> Seq<(Seq<char>, JsonView)> {
    fields.map_values(|e: (String, JsonValue)| (e.0@, e.1@))
}

/// The value of the first member named `key`, over views.
pub open spec fn field_view(fields: Seq<(Seq<char>, JsonView)>, key: Seq<char>) -> Option<JsonView>
    decreases fields.len(),
{
    if fields.len() == 0 {
        None
    } else if fields[0].0 == key {
        Some(fields[0].1)
    } else {
        field_view(fields.drop_first(), key)
    }
}

/// An optional reference to a value, dereferenced.
pub open spec fn deref_value(v: Option<&JsonValue>) -> Option<JsonValue> {
    match v {
        Some(x) => Some(*x),
        None => None,
    }
}

/// A required non-negative integer.
pub open spec fn json_u64(v: Option<JsonValue>) -> Option<u64> {
    match v {
        Some(JsonValue::Unsigned(u)) => Some(u),
        _ => None,
    }
}

/// A required string.
pub open spec fn json_string(v: Option<JsonValue>) -> Option<String> {
    match v {
        Some(JsonValue::String(s)) => Some(s),
        _ => None,
    }
}

/// An optional non-negative integer: absent or `null` reads as `None`.
pub open spec fn json_optional_u64(v: Option<JsonValue>) -> Option<Option<u64>> {
    match v {
        None => Some(None),
        Some(JsonValue::Null) => Some(None),
        Some(JsonValue::Unsigned(u)) => Some(Some(u)),
        _ => None,
    }
}

/// An optional string: absent or `null` reads as `None`.
pub open spec fn json_optional_string(v: Option<JsonValue>) -> Option<Option<String>> {
    match v {
        None => Some(None),
        Some(JsonValue::Null) => Some(None),
        Some(JsonValue::String(s)) => Some(Some(s)),
        _ => None,
    }
}

/// An optional boolean: absent or `null` reads as `None`.
pub open spec fn json_optional_bool(v: Option<JsonValue>) -> Option<Option<bool>> {
    match v {
        None => Some(None),
        Some(JsonValue::Null) => Some(None),
        Some(JsonValue::Bool(b)) => Some(Some(b)),
        _ => None,
    }
}

/// The text of a string value.
pub open spec fn json_str_view(v: Option<JsonValue>) -> Option<Seq<char>> {
    match v {
        Some(JsonValue::String(s)) => Some(s@),
        _ => None,
    }
}

impl JsonValue {
    /// A copy of this value.
    pub fn duplicate(&self) -> (res: JsonValue)
        ensures
            res == *self,
    {
        match self {
            JsonValue::Null => JsonValue::Null,
            JsonValue::Bool(b) => JsonValue::Bool(*b),
            JsonValue::Unsigned(u) => JsonValue::Unsigned(*u),
            JsonValue::OtherNumber(t) => JsonValue::OtherNumber(t.clone()),
            JsonValue::String(s) => JsonValue::String(s.clone()),
            JsonValue::Composite(t) => JsonValue::Composite(t.clone()),
        }
    }
}

/// Lookups over the members and over their views agree.
pub proof fn lemma_field_view(fields: Seq<(String, JsonValue)>, key: Seq<char>)
    ensures
        field_view(fields_view(fields), key) == (match field(fields, key) {
            Some(v) => Some(v@),
            None => None,
        }),
    decreases fields.len(),
{
    let fv = fields_view(fields);
    if fields.len() > 0 {
        assert(fv.drop_first() =~= fields_view(fields.drop_first()));
        lemma_field_view(fields.drop_first(), key);
    }
}

/// Finds the first member named `key`.
pub fn find_field<'a>(fields: &'a Vec<(String, JsonValue)>, key: &str) -> (res: Option<&'a JsonValue>)
    ensures
        deref_value(res) == field(fields@, key@),
{
    let n = fields.len();
    let mut i: usize = 0;
    assert(fields@.subrange(0, n as int) =~= fields@);
    while i < n
        invariant
            n == fields@.len(),
            i <= n,
            field(fields@, key@) == field(fields@.subrange(i as int, n as int), key@),
        decreases n - i,
    {
        let entry = &fields[i];
        let ghost rest = fields@.subrange(i as int, n as int);
        assert(rest[0] == fields@[i as int]);
        if str_eq(entry.0.as_str(), key) {
            return Some(&entry.1);
        }
        assert(rest.drop_first() =~= fields@.subrange(i + 1, n as int));
        i = i + 1;
    }
    assert(fields@.subrange(n as int, n as int) =~= Seq::<(String, JsonValue)>::empty());
    None
}

/// Reads a required non-negative integer.
pub fn read_u64(v: Option<&JsonValue>) -> (res: Option<u64>)
    ensures
        res == json_u64(deref_value(v)),
{
    match v {
        Some(JsonValue::Unsigned(u)) => Some(*u),
        _ => None,
    }
}

/// Reads a required string.
pub fn read_string(v: Option<&JsonValue>) -> (res: Option<String>)
    ensures
        res == json_string(deref_value(v)),
{
    match v {
        Some(JsonValue::String(s)) => Some(s.clone()),
        _ => None,
    }
}

/// Reads an optional non-negative integer.
pub fn read_optional_u64(v: Option<&JsonValue>) -> (res: Option<Option<u64>>)
    ensures
        res == json_optional_u64(deref_value(v)),
{
    match v {
        None => Some(None),
        Some(JsonValue::Null) => Some(None),
        Some(JsonValue::Unsigned(u)) => Some(Some(*u)),
        _ => None,
    }
}

/// Reads an optional string.
pub fn read_optional_string(v: Option<&JsonValue>) -> (res: Option<Option<String>>)
    ensures
        res == json_optional_string(deref_value(v)),
{
    match v {
        None => Some(None),
        Some(JsonValue::Null) => Some(None),
        Some(JsonValue::String(s)) => Some(Some(s.clone())),
        _ => None,
    }
}

/// Reads an optional boolean.
pub fn read_optional_bool(v: Option<&JsonValue>) -> (res: Option<Option<bool>>)
    ensures
        res == json_optional_bool(deref_value(v)),
{
    match v {
        None => Some(None),
        Some(JsonValue::Null) => Some(None),
        Some(JsonValue::Bool(b)) => Some(Some(*b)),
        _ => None,
    }
}

/// Borrows the text of a string value.
pub fn value_as_str<'a>(v: Option<&'a JsonValue>) -> (res: Option<&'a str>)
    ensures
        match res {
            Some(s) => json_str_view(deref_value(v)) == Some(s@),
            None => json_str_view(deref_value(v)) is None,
        },
{
    match v {
        Some(JsonValue::String(s)) => Some(s.as_str()),
        _ => None,
    }
}

} // verus!
