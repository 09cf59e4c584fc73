//! JSON documents as the collectors read them.
//!
//! PowerShell hands its results over as JSON text. `serde_json` parses that
//! text; the resulting tree is held here as plain values (`JsonValue`) and
//! inspected by verified code through its model, `JsonView`.

use vstd::prelude::*;

verus! {

/// A JSON number, with what `serde_json::Number` reports of it.
#[derive(Debug, Clone, PartialEq)]
pub struct JsonNumber {
    /// `Number::as_u64`: the value when it is a non-negative integer.
    pub as_u64: Option<u64>,
    /// `Number::as_i64`: the value when it is an integer that fits in `i64`.
    pub as_i64: Option<i64>,
    /// The number as `serde_json` prints it; for a float this is the shortest
    /// text that reads back as the same `f64`.
    pub text: String,
}

/// A parsed JSON value. Object members keep the order in which `serde_json`
/// yields them, and their keys are distinct.
#[derive(Debug, PartialEq)]
pub enum JsonValue {
    Null,
    Bool(bool),
    Number(JsonNumber),
    Text(String),
    Array(Vec<JsonValue>),
    Object(Vec<(String, JsonValue)>),
}

/// The model of a JSON number.
pub struct NumberView {
    pub as_u64: Option<u64>,
    pub as_i64: Option<i64>,
    pub text: Seq<char>,
}

/// The model of a JSON value: strings are character sequences.
pub enum JsonView {
    Null,
    Bool(bool),
    Number(NumberView),
    Text(Seq<char>),
    Array(Seq<JsonView>),
    Object(Seq<(Seq<char>, JsonView)>),
}

/// The model of a `JsonValue`.
pub open spec fn json_view(v: JsonValue) -> JsonView
    decreases v,
{
    match v {
        JsonValue::Null => JsonView::Null,
        JsonValue::Bool(b) => JsonView::Bool(b),
        JsonValue::Number(n) => JsonView::Number(
            NumberView { as_u64: n.as_u64, as_i64: n.as_i64, text: n.text@ },
        ),
        JsonValue::Text(s) => JsonView::Text(s@),
        JsonValue::Array(items) => JsonView::Array(
            Seq::new(
                items@.len(),
                |i: int|
                    if 0 <= i < items@.len() {
                        json_view(items@[i])
                    } else {
                        JsonView::Null
                    },
            ),
        ),
        JsonValue::Object(members) => JsonView::Object(
            Seq::new(
                members@.len(),
                |i: int|
                    if 0 <= i < members@.len() {
                        (members@[i].0@, json_view(members@[i].1))
                    } else {
                        (Seq::empty(), JsonView::Null)
                    },
            ),
        ),
    }
}

impl View for JsonValue {
    type V = JsonView;

    open spec fn view(&self) -> JsonView {
        json_view(*self)
    }
}

/// The value of the first member named `key`.
pub open spec fn lookup(members: Seq<(Seq<char>, JsonView)>, key: Seq<char>) -> Option<JsonView>
    decreases members.len(),
{
    if members.len() == 0 {
        None
    } else if members[0].0 == key {
        Some(members[0].1)
    } else {
        lookup(members.drop_first(), key)
    }
}

/// `Value::get(key)`: the member `key` of an object; `None` for any other value.
pub open spec fn field(v: JsonView, key: Seq<char>) -> Option<JsonView> {
    match v {
        JsonView::Object(members) => lookup(members, key),
        _ => None,
    }
}

/// `Value::as_str` applied to an optional value.
pub open spec fn as_text(v: Option<JsonView>) -> Option<Seq<char>> {
    match v {
        Some(JsonView::Text(s)) => Some(s),
        _ => None,
    }
}

/// `Value::as_u64` applied to an optional value.
pub open spec fn as_u64(v: Option<JsonView>) -> Option<u64> {
    match v {
        Some(JsonView::Number(n)) => n.as_u64,
        _ => None,
    }
}

/// `Value::as_i64` applied to an optional value.
pub open spec fn as_i64(v: Option<JsonView>) -> Option<i64> {
    match v {
        Some(JsonView::Number(n)) => n.as_i64,
        _ => None,
    }
}

/// `Value::as_bool` applied to an optional value.
pub open spec fn as_bool(v: Option<JsonView>) -> Option<bool> {
    match v {
        Some(JsonView::Bool(b)) => Some(b),
        _ => None,
    }
}

/// The printed form of a number, standing for `Value::as_f64`: `Some` exactly
/// for numbers, and the text reads back as the `f64` that `as_f64` gives.
pub open spec fn as_number_text(v: Option<JsonView>) -> Option<Seq<char>> {
    match v {
        Some(JsonView::Number(n)) => Some(n.text),
        _ => None,
    }
}

/// `Value::as_array` applied to an optional value.
pub open spec fn as_array(v: Option<JsonView>) -> Option<Seq<JsonView>> {
    match v {
        Some(JsonView::Array(items)) => Some(items),
        _ => None,
    }
}

/// The elements of an array, or the value itself when it is not one.
pub open spec fn as_list(v: JsonView) -> Seq<JsonView> {
    match v {
        JsonView::Array(items) => items,
        other => seq![other],
    }
}

/// The model of an optional borrowed value.
pub open spec fn ref_view(r: Option<&JsonValue>) -> Option<JsonView> {
    match r {
        Some(v) => Some(v@),
        None => None,
    }
}

/// The model of an optional string.
pub open spec fn opt_view(r: Option<String>) -> Option<Seq<char>> {
    match r {
        Some(s) => Some(s@),
        None => None,
    }
}

impl JsonValue {
    /// The member `key` of an object, as `serde_json::Value::get` finds it.
    pub fn get(&self, key: &str) -> (r: Option<&JsonValue>)
        ensures
            ref_view(r) == field(self@, key@),
    {
        match self {
            JsonValue::Object(members) => {
                let k = crate::text::owned(key);
                let ghost m = match self@ {
                    JsonView::Object(m) => m,
                    _ => Seq::empty(),
                };
                assert(m.len() == members@.len());
                assert(m.skip(0) =~= m);
                assert(field(self@, key@) == lookup(m, key@));
                let mut i: usize = 0;
                while i < members.len()
                    invariant
                        i <= members@.len(),
                        m.len() == members@.len(),
                        k@ == key@,
                        forall|j: int|
                            0 <= j < members@.len() ==> #[trigger] m[j] == (
                                members@[j].0@,
                                json_view(members@[j].1),
                            ),
                        lookup(m, key@) == lookup(m.skip(i as int), key@),
                        field(self@, key@) == lookup(m, key@),
                    decreases members@.len() - i,
                {
                    assert(m.skip(i as int)[0] == m[i as int]);
                    if members[i].0 == k {
                        assert(m[i as int] == (members@[i as int].0@, json_view(members@[i as int].1)));
                        assert(m.skip(i as int)[0].0 == key@);
                        return Some(&members[i].1);
                    }
                    assert(m.skip(i as int).drop_first() =~= m.skip(i + 1));
                    i = i + 1;
                }
                assert(m.skip(i as int) =~= Seq::<(Seq<char>, JsonView)>::empty());
                None
            },
            _ => None,
        }
    }

    /// The string held by a string value.
    pub fn text(&self) -> (r: Option<String>)
        ensures
            opt_view(r) == as_text(Some(self@)),
    {
        match self {
            JsonValue::Text(s) => Some(s.clone()),
            _ => None,
        }
    }

    /// The value of a non-negative integer.
    pub fn u64_value(&self) -> (r: Option<u64>)
        ensures
            r == as_u64(Some(self@)),
    {
        match self {
            JsonValue::Number(n) => n.as_u64,
            _ => None,
        }
    }

    /// The value of an integer that fits in `i64`.
    pub fn i64_value(&self) -> (r: Option<i64>)
        ensures
            r == as_i64(Some(self@)),
    {
        match self {
            JsonValue::Number(n) => n.as_i64,
            _ => None,
        }
    }

    /// The value of a boolean.
    pub fn bool_value(&self) -> (r: Option<bool>)
        ensures
            r == as_bool(Some(self@)),
    {
        match self {
            JsonValue::Bool(b) => Some(*b),
            _ => None,
        }
    }

    /// The printed form of a number.
    pub fn number_text(&self) -> (r: Option<String>)
        ensures
            opt_view(r) == as_number_text(Some(self@)),
    {
        match self {
            JsonValue::Number(n) => Some(n.text.clone()),
            _ => None,
        }
    }
}

/// `v.get(key).and_then(as_str)`, copied out.
pub fn field_text(v: &JsonValue, key: &str) -> (r: Option<String>)
    ensures
        opt_view(r) == as_text(field(v@, key@)),
{
    match v.get(key) {
        Some(x) => x.text(),
        None => None,
    }
}

/// `v.get(key).and_then(as_u64)`.
pub fn field_u64(v: &JsonValue, key: &str) -> (r: Option<u64>)
    ensures
        r == as_u64(field(v@, key@)),
{
    match v.get(key) {
        Some(x) => x.u64_value(),
        None => None,
    }
}

/// `v.get(key).and_then(as_i64)`.
pub fn field_i64(v: &JsonValue, key: &str) -> (r: Option<i64>)
    ensures
        r == as_i64(field(v@, key@)),
{
    match v.get(key) {
        Some(x) => x.i64_value(),
        None => None,
    }
}

/// `v.get(key).and_then(as_bool)`.
pub fn field_bool(v: &JsonValue, key: &str) -> (r: Option<bool>)
    ensures
        r == as_bool(field(v@, key@)),
{
    match v.get(key) {
        Some(x) => x.bool_value(),
        None => None,
    }
}

/// `v.get(key)` when it is a number, by its printed form.
pub fn field_number_text(v: &JsonValue, key: &str) -> (r: Option<String>)
    ensures
        opt_view(r) == as_number_text(field(v@, key@)),
{
    match v.get(key) {
        Some(x) => x.number_text(),
        None => None,
    }
}

/// What `serde_json::from_str::<serde_json::Value>` makes of a text: the
/// document's model, or the error's message (its `Display` text).
pub uninterp spec fn json_document(text: Seq<char>) -> Result<JsonView, Seq<char>>;

/// Parses JSON text with `serde_json::from_str::<serde_json::Value>`.
/// The contract names the result only: JSON syntax is `serde_json`'s, and the
/// result depends on the text alone. Numbers keep `as_u64`, `as_i64` and their
/// printed form; object members come in the order the map yields them.
#[verifier::external_body]
pub(crate) fn parse_json(text: &str) -> (r: Result<JsonValue, String>)
    ensures
        match r {
            Ok(v) => json_document(text@) == Ok::<JsonView, Seq<char>>(v@),
            Err(e) => json_document(text@) == Err::<JsonView, Seq<char>>(e@),
        },
{
    match serde_json::from_str::<serde_json::Value>(text) {
        Ok(v) => Ok(from_serde(v)),
        Err(e) => Err(e.to_string()),
    }
}

/// `serde_json::Value`, carried through the conversion below only.
#[verifier::external_type_specification]
#[verifier::external_body]
pub struct ExSerdeValue(serde_json::Value);

/// Moves a `serde_json::Value` into a `JsonValue`, variant for variant.
#[verifier::external_body]
fn from_serde(v: serde_json::Value) -> JsonValue {
    match v {
        serde_json::Value::Null => JsonValue::Null,
        serde_json::Value::Bool(b) => JsonValue::Bool(b),
        serde_json::Value::Number(n) => JsonValue::Number(
            JsonNumber { as_u64: n.as_u64(), as_i64: n.as_i64(), text: n.to_string() },
        ),
        serde_json::Value::String(s) => JsonValue::Text(s),
        serde_json::Value::Array(a) => JsonValue::Array(a.into_iter().map(from_serde).collect()),
        serde_json::Value::Object(m) => JsonValue::Object(
            m.into_iter().map(|(k, x)| (k, from_serde(x))).collect(),
        ),
    }
}

} // verus!
