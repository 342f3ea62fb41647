//! JSON documents as the library reads them, parsed by `serde_json`.
//!
//! A parsed document keeps its top-level value; the elements of an array and
//! the members of an object are kept as their own compact JSON texts, which
//! are parsed in turn where the library needs to look inside them.

use serde_json::Value;
use vstd::prelude::*;

verus! {

/// A parsed JSON value; nested values are kept as compact JSON text.
#[derive(Debug, Clone)]
pub enum JsonValue {
    Null,
    Bool(bool),
    /// A number, with its value when it is a non-negative integer that fits in `u64`.
    Number(Option<u64>),
    Str(String),
    /// The elements, each as JSON text.
    Array(Vec<String>),
    /// The members in the parser's order, each value as JSON text.
    Object(Vec<(String, String)>),
}

/// A parsed JSON value with texts as character sequences.
pub enum JsonValueView {
    Null,
    Bool(bool),
    Number(Option<u64>),
    Str(Seq<char>),
    Array(Seq<Seq<char>>),
    Object(Seq<(Seq<char>, Seq<char>)>),
}

/// The views of object members.
pub open spec fn members_view(m: Seq<(String, String)>) -> Seq<(Seq<char>, Seq<char>)> {
    m.map_values(|p: (String, String)| (p.0@, p.1@))
}

impl View for JsonValue {
    type V = JsonValueView;

    open spec fn view(&self) -> JsonValueView {
        match self {
            JsonValue::Null => JsonValueView::Null,
            JsonValue::Bool(b) => JsonValueView::Bool(*b),
            JsonValue::Number(n) => JsonValueView::Number(*n),
            JsonValue::Str(s) => JsonValueView::Str(s@),
            JsonValue::Array(a) => JsonValueView::Array(a@.map_values(|e: String| e@)),
            JsonValue::Object(m) => JsonValueView::Object(members_view(m@)),
        }
    }
}

/// The view of an optional parsed value.
pub open spec fn opt_json_view(o: Option<JsonValue>) -> Option<JsonValueView> {
    match o {
        Some(v) => Some(v@),
        None => None,
    }
}

/// What `serde_json::from_str::<serde_json::Value>` makes of a text, in the
/// shape of `JsonValue`; `None` when the text is not valid JSON.
pub uninterp spec fn json_parse(text: Seq<char>) -> Option<JsonValueView>;

/// Parse `text` with `serde_json::from_str::<serde_json::Value>`. The result
/// is `None` exactly when serde_json rejects the text; otherwise it is the
/// value's variant with its content moved over: a number as
/// `serde_json::Number::as_u64` reads it, and each array element or object
/// member value written back as JSON text by its `Display` implementation.
/// Nothing is claimed of the result beyond the name `json_parse`: it is a
/// function of the text alone.
#[verifier::external_body]
pub fn parse_json(text: &str) -> (r: Option<JsonValue>)
    ensures
        opt_json_view(r) == json_parse(text@),
{
    match serde_json::from_str::<Value>(text) {
        Err(_) => None,
        Ok(Value::Null) => Some(JsonValue::Null),
        Ok(Value::Bool(b)) => Some(JsonValue::Bool(b)),
        Ok(Value::Number(n)) => Some(JsonValue::Number(n.as_u64())),
        Ok(Value::String(s)) => Some(JsonValue::Str(s)),
        Ok(Value::Array(a)) => Some(JsonValue::Array(a.iter().map(Value::to_string).collect())),
        Ok(Value::Object(m)) => Some(JsonValue::Object(m.into_iter().map(|(k, v)| (k, v.to_string())).collect())),
    }
}

/// The value of the first member named `key`.
pub open spec fn lookup(members: Seq<(Seq<char>, Seq<char>)>, key: Seq<char>) -> Option<Seq<char>>
    decreases members.len(),
{
    if members.len() == 0 {
        None
    } else if members[0].0 == key {
        Some(members[0].1)
    } else {
        lookup(members.drop_first(), key)
    }
}

proof fn lemma_lookup_skip(members: Seq<(Seq<char>, Seq<char>)>, key: Seq<char>, i: int)
    requires
        0 <= i <= members.len(),
        forall|j: int| 0 <= j < i ==> members[j].0 != key,
    ensures
        lookup(members, key) == lookup(members.skip(i), key),
    decreases i,
{
    if i > 0 {
        let t = members.drop_first();
        assert forall|j: int| 0 <= j < i - 1 implies t[j].0 != key by {
            assert(t[j] == members[j + 1]);
        }
        lemma_lookup_skip(t, key, i - 1);
        assert(t.skip(i - 1) =~= members.skip(i));
    } else {
        assert(members.skip(0) =~= members);
    }
}

/// The JSON text of the first member named `key`.
pub fn find_member<'a>(members: &'a Vec<(String, String)>, key: &str) -> (r: Option<&'a String>)
    ensures
        match r {
            Some(v) => lookup(members_view(members@), key@) == Some(v@),
            None => lookup(members_view(members@), key@) is None,
        },
{
    let ghost mv = members_view(members@);
    let mut i: usize = 0;
    while i < members.len()
        invariant
            i <= members.len(),
            mv == members_view(members@),
            forall|j: int| 0 <= j < i ==> mv[j].0 != key@,
        decreases members.len() - i,
    {
        if crate::text::str_eq(members[i].0.as_str(), key) {
            proof {
                lemma_lookup_skip(mv, key@, i as int);
            }
            return Some(&members[i].1);
        }
        i = i + 1;
    }
    proof {
        lemma_lookup_skip(mv, key@, i as int);
    }
    None
}

} // verus!
