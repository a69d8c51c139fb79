//! Reading the documents of the Falcon API.
use crate::falcon::data::option_json;
use crate::json::{at_pointer, json, jsons, member, member_of, Json};
use crate::query::option_text;
use vstd::prelude::*;

verus! {

/// The items of an array; none for any other document.
pub open spec fn items_of(value: Option<Json>) -> Seq<Json> {
    match value {
        Some(Json::Array(items)) => items,
        _ => Seq::empty(),
    }
}

/// The resources of a reply.
pub open spec fn resources_of(document: Json) -> Seq<Json> {
    items_of(member_of(document, "resources"@))
}

/// The text of a member.
pub open spec fn text_member(document: Json, key: Seq<char>) -> Option<Seq<char>> {
    match member_of(document, key) {
        Some(Json::Text(text)) => Some(text),
        _ => None,
    }
}

/// The text that a pointer leads to; empty where there is none.
pub open spec fn text_under(document: Json, pointer: Seq<char>) -> Seq<char> {
    match at_pointer(document, pointer) {
        Some(Json::Text(text)) => text,
        _ => Seq::empty(),
    }
}

/// Copies a list of values.
pub fn copied(values: &Vec<serde_json::Value>) -> (r: Vec<serde_json::Value>)
    ensures
        jsons(r@) == jsons(values@),
{
    let mut out: Vec<serde_json::Value> = Vec::new();
    let mut i: usize = 0;
    while i < values.len()
        invariant
            i <= values@.len(),
            out@.len() == i,
            forall|j: int| 0 <= j < i ==> json(#[trigger] out@[j]) == json(values@[j]),
        decreases values@.len() - i,
    {
        out.push(values[i].clone());
        i += 1;
    }
    assert(jsons(out@) =~= jsons(values@));
    out
}

/// The items of an array; none for any other document.
pub fn items(value: Option<&serde_json::Value>) -> (r: Vec<serde_json::Value>)
    ensures
        jsons(r@) == items_of(option_json(value)),
{
    match value {
        Some(v) => match v.as_array() {
            Some(found) => {
                return copied(found);
            },
            None => {},
        },
        None => {},
    }
    let out: Vec<serde_json::Value> = Vec::new();
    assert(jsons(out@) =~= Seq::<Json>::empty());
    out
}

/// The resources of a reply.
pub fn resources(document: &serde_json::Value) -> (r: Vec<serde_json::Value>)
    ensures
        jsons(r@) == resources_of(json(*document)),
{
    items(member(document, "resources"))
}

/// The text of a member.
pub fn string(document: &serde_json::Value, key: &str) -> (r: Option<String>)
    ensures
        option_text(r) == text_member(json(*document), key@),
{
    match member(document, key) {
        Some(value) => match value.as_str() {
            Some(text) => Some(text.to_owned()),
            None => None,
        },
        None => None,
    }
}

/// The text that a pointer leads to; empty where there is none.
pub fn text_at(document: &serde_json::Value, pointer: &str) -> (r: String)
    ensures
        r@ == text_under(json(*document), pointer@),
{
    match document.pointer(pointer) {
        Some(value) => match value.as_str() {
            Some(text) => {
                return text.to_owned();
            },
            None => {},
        },
        None => {},
    }
    String::new()
}

} // verus!
