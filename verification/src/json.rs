//! What the overlay reads of a JSON document: the members of a top-level object
//! whose values are strings or booleans.
use vstd::prelude::*;
use serde_json::Value;
use vstd::string::StringExecFns;

verus! {

/// A member value as far as this library reads it.
#[derive(Debug, PartialEq, Eq)]
pub enum JsonValue {
    Text(String),
    Flag(bool),
    Other,
}

/// One member of a top-level JSON object.
#[derive(Debug, PartialEq, Eq)]
pub struct JsonMember {
    pub key: String,
    pub value: JsonValue,
}

/// A member value as a mathematical value.
pub ghost enum JsonValueView {
    Text(Seq<char>),
    Flag(bool),
    Other,
}

/// A member value as a mathematical value.
pub open spec fn value_view(v: JsonValue) -> JsonValueView {
    match v {
        JsonValue::Text(s) => JsonValueView::Text(s@),
        JsonValue::Flag(b) => JsonValueView::Flag(b),
        JsonValue::Other => JsonValueView::Other,
    }
}

/// The members as (key, value) pairs.
pub open spec fn members_view(m: Seq<JsonMember>) -> Seq<(Seq<char>, JsonValueView)> {
    m.map_values(|x: JsonMember| (x.key@, value_view(x.value)))
}

/// What `serde_json::from_str::<serde_json::Value>` makes of `text`, as far as this
/// library reads it: `None` when the text is not JSON; otherwise the members of
/// the top-level value when it is an object, and no members when it is not.
pub uninterp spec fn json_document(text: Seq<char>) -> Option<Seq<(Seq<char>, JsonValueView)>>;

/// Parses `text` with `serde_json::from_str::<serde_json::Value>` and lists the
/// members of a top-level object, each value reduced to a string, a boolean or
/// "other". The contract names the result; it states nothing of member order.
#[verifier::external_body]
pub(crate) fn parse_json(text: &str) -> (r: Option<Vec<JsonMember>>)
    ensures
        match r {
            Some(m) => json_document(text@) == Some(members_view(m@)),
            None => json_document(text@) is None,
        },
{
    match serde_json::from_str::<Value>(text) {
        Err(_) => None,
        Ok(Value::Object(map)) => Some(map.into_iter().map(|(key, value)| JsonMember {
            key,
            value: match value {
                Value::String(s) => JsonValue::Text(s),
                Value::Bool(b) => JsonValue::Flag(b),
                _ => JsonValue::Other,
            },
        }).collect()),
        Ok(_) => Some(Vec::new()),
    }
}

/// The value of the first member named `key`, if any (`serde_json::Value::get`).
pub open spec fn member_value(doc: Seq<(Seq<char>, JsonValueView)>, key: Seq<char>) -> Option<
    JsonValueView,
>
    decreases doc.len(),
{
    if doc.len() == 0 {
        None
    } else if doc[0].0 == key {
        Some(doc[0].1)
    } else {
        member_value(doc.drop_first(), key)
    }
}

/// The string value of member `key`, if it is a string (`get(key)` then `as_str`).
pub open spec fn member_text(doc: Seq<(Seq<char>, JsonValueView)>, key: Seq<char>) -> Option<
    Seq<char>,
> {
    match member_value(doc, key) {
        Some(JsonValueView::Text(s)) => Some(s),
        _ => None,
    }
}

/// The boolean value of member `key`, if it is a boolean (`get(key)` then `as_bool`).
pub open spec fn member_flag(doc: Seq<(Seq<char>, JsonValueView)>, key: Seq<char>) -> Option<
    bool,
> {
    match member_value(doc, key) {
        Some(JsonValueView::Flag(b)) => Some(b),
        _ => None,
    }
}

/// The string member `key`, or `default` when there is none: `unwrap_or`.
pub open spec fn text_or(
    doc: Seq<(Seq<char>, JsonValueView)>,
    key: Seq<char>,
    default: Seq<char>,
) -> Seq<char> {
    match member_text(doc, key) {
        Some(s) => s,
        None => default,
    }
}

/// Index of the first member named `key`.
fn find_member(members: &Vec<JsonMember>, key: &str) -> (r: Option<usize>)
    ensures
        match r {
            Some(i) => i < members@.len() && member_value(members_view(members@), key@) == Some(
                value_view(members@[i as int].value),
            ),
            None => member_value(members_view(members@), key@) is None,
        },
{
    let ghost doc = members_view(members@);
    let wanted = String::from_str(key);
    let mut i: usize = 0;
    assert(doc.skip(0) =~= doc);
    while i < members.len()
        invariant
            i <= members@.len(),
            doc == members_view(members@),
            wanted@ == key@,
            member_value(doc, key@) == member_value(doc.skip(i as int), key@),
        decreases members.len() - i,
    {
        assert(doc.skip(i as int)[0] == doc[i as int]);
        if members[i].key == wanted {
            return Some(i);
        }
        assert(doc.skip(i as int).drop_first() =~= doc.skip(i + 1));
        i = i + 1;
    }
    None
}

/// The string member `key`, if it is a string.
pub fn text_member(members: &Vec<JsonMember>, key: &str) -> (r: Option<String>)
    ensures
        match r {
            Some(s) => member_text(members_view(members@), key@) == Some(s@),
            None => member_text(members_view(members@), key@) is None,
        },
{
    match find_member(members, key) {
        Some(i) => match &members[i].value {
            JsonValue::Text(s) => Some(s.clone()),
            _ => None,
        },
        None => None,
    }
}

/// The boolean member `key`, if it is a boolean.
pub fn flag_member(members: &Vec<JsonMember>, key: &str) -> (r: Option<bool>)
    ensures
        r == member_flag(members_view(members@), key@),
{
    match find_member(members, key) {
        Some(i) => match &members[i].value {
            JsonValue::Flag(b) => Some(*b),
            _ => None,
        },
        None => None,
    }
}

} // verus!
