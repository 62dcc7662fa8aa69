//! JSON, one level at a time.

use serde_json::Value;
use vstd::prelude::*;

use crate::text::same_text;

verus! {

/// A JSON value. What it holds in turn is there as JSON text.
#[derive(Clone, Debug)]
pub enum JsonNode {
    Null,
    Bool(bool),
    /// The number, where it is a whole one that is not negative and fits.
    Number(Option<u64>),
    Text(String),
    List(Vec<String>),
    Object(Vec<(String, String)>),
}

/// A JSON value, as values.
pub enum JsonView {
    Null,
    Bool(bool),
    Number(Option<u64>),
    Text(Seq<char>),
    List(Seq<Seq<char>>),
    Object(Seq<(Seq<char>, Seq<char>)>),
}

/// The members of an object, as values.
pub open spec fn members_of(m: Seq<(String, String)>) -> Seq<(Seq<char>, Seq<char>)> {
    Seq::new(m.len(), |i: int| (m[i].0@, m[i].1@))
}

impl View for JsonNode {
    type V = JsonView;

    open spec fn view(&self) -> JsonView {
        match self {
            JsonNode::Null => JsonView::Null,
            JsonNode::Bool(b) => JsonView::Bool(*b),
            JsonNode::Number(n) => JsonView::Number(*n),
            JsonNode::Text(s) => JsonView::Text(s@),
            JsonNode::List(l) => JsonView::List(crate::soc::access_log::texts(l@)),
            JsonNode::Object(m) => JsonView::Object(members_of(m@)),
        }
    }
}

/// The outcome of reading JSON, as values.
pub open spec fn outcome(r: Result<JsonNode, String>) -> Result<JsonView, Seq<char>> {
    match r {
        Ok(node) => Ok(node@),
        Err(e) => Err(e@),
    }
}

/// What JSON text holds, or what is wrong with it.
pub uninterp spec fn json_view(text: Seq<char>) -> Result<JsonView, Seq<char>>;

/// `serde_json::from_str` into a `serde_json::Value`: the value, or the error
/// as text, depends on the text alone. What the value holds in turn is written
/// out again as JSON text.
#[verifier::external_body]
pub(crate) fn read_json(text: &str) -> (r: Result<JsonNode, String>)
    ensures
        outcome(r) == json_view(text@),
{
    match serde_json::from_str::<Value>(text) {
        Ok(Value::Null) => Ok(JsonNode::Null),
        Ok(Value::Bool(b)) => Ok(JsonNode::Bool(b)),
        Ok(Value::Number(n)) => Ok(JsonNode::Number(n.as_u64())),
        Ok(Value::String(s)) => Ok(JsonNode::Text(s)),
        Ok(Value::Array(a)) => Ok(JsonNode::List(a.iter().map(|v| v.to_string()).collect())),
        Ok(Value::Object(m)) => Ok(
            JsonNode::Object(m.iter().map(|e| (e.0.clone(), e.1.to_string())).collect()),
        ),
        Err(e) => Err(e.to_string()),
    }
}

/// The member of an object under a name, if there is one.
pub open spec fn member(m: Seq<(Seq<char>, Seq<char>)>, name: Seq<char>) -> Option<Seq<char>>
    decreases m.len(),
{
    if m.len() == 0 {
        None
    } else if m[0].0 == name {
        Some(m[0].1)
    } else {
        member(m.skip(1), name)
    }
}

/// Find a member of an object.
pub fn find_member(m: &Vec<(String, String)>, name: &str) -> (r: Option<String>)
    ensures
        crate::text::opt_text(r) == member(members_of(m@), name@),
{
    let ghost all = members_of(m@);
    assert(all.skip(0) =~= all);
    for i in 0..m.len()
        invariant
            all == members_of(m@),
            member(all.skip(i as int), name@) == member(all, name@),
    {
        assert(all.skip(i as int).skip(1) =~= all.skip(i + 1));
        if same_text(m[i].0.as_str(), name) {
            return Some(m[i].1.clone());
        }
    }
    None
}

/// The text a JSON value is, if it is one.
pub open spec fn text_in(v: Result<JsonView, Seq<char>>) -> Option<Seq<char>> {
    match v {
        Ok(JsonView::Text(s)) => Some(s),
        _ => None,
    }
}

/// The whole number a JSON value is, if it is one.
pub open spec fn number_in(v: Result<JsonView, Seq<char>>) -> Option<u64> {
    match v {
        Ok(JsonView::Number(n)) => n,
        _ => None,
    }
}

/// The truth value a JSON value is, if it is one.
pub open spec fn bool_in(v: Result<JsonView, Seq<char>>) -> Option<bool> {
    match v {
        Ok(JsonView::Bool(b)) => Some(b),
        _ => None,
    }
}

pub fn node_text(v: &Result<JsonNode, String>) -> (r: Option<String>)
    ensures
        crate::text::opt_text(r) == text_in(outcome(*v)),
{
    match v {
        Ok(JsonNode::Text(s)) => Some(s.clone()),
        _ => None,
    }
}

pub fn node_number(v: &Result<JsonNode, String>) -> (r: Option<u64>)
    ensures
        r == number_in(outcome(*v)),
{
    match v {
        Ok(JsonNode::Number(n)) => *n,
        _ => None,
    }
}

pub fn node_bool(v: &Result<JsonNode, String>) -> (r: Option<bool>)
    ensures
        r == bool_in(outcome(*v)),
{
    match v {
        Ok(JsonNode::Bool(b)) => Some(*b),
        _ => None,
    }
}

/// What a member that may be missing holds.
pub open spec fn member_view(m: Seq<(Seq<char>, Seq<char>)>, name: Seq<char>) -> Result<
    JsonView,
    Seq<char>,
> {
    match member(m, name) {
        Some(json) => json_view(json),
        None => Ok(JsonView::Null),
    }
}

/// Read a member of an object; one that is missing reads as null.
pub(crate) fn read_member(m: &Vec<(String, String)>, name: &str) -> (r: Result<JsonNode, String>)
    ensures
        outcome(r) == member_view(members_of(m@), name@),
{
    match find_member(m, name) {
        Some(json) => read_json(json.as_str()),
        None => Ok(JsonNode::Null),
    }
}

/// The member under a name is the first of that name, and there is none exactly
/// where no member has it.
pub proof fn law_first_member_of_a_name_counts(
    m: Seq<(Seq<char>, Seq<char>)>,
    name: Seq<char>,
    i: int,
)
    ensures
        0 <= i < m.len() && m[i].0 == name && (forall|k: int|
            0 <= k < i ==> (#[trigger] m[k]).0 != name) ==> member(m, name) == Some(m[i].1),
        (forall|k: int| 0 <= k < m.len() ==> (#[trigger] m[k]).0 != name) ==> member(m, name) is None,
    decreases m.len(),
{
    if m.len() > 0 {
        let rest = m.skip(1);
        law_first_member_of_a_name_counts(rest, name, i - 1);
        if 0 < i < m.len() {
            assert(rest[i - 1] == m[i]);
        }
        assert(forall|k: int| 0 <= k < rest.len() ==> (#[trigger] rest[k]) == m[k + 1]);
    }
}

} // verus!
