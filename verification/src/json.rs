//! JSON values as the tools receive them in arguments.

use vstd::prelude::*;

verus! {

#[verifier::external_type_specification]
#[verifier::external_body]
pub struct ExJsonNumber(serde_json::Number);

/// A JSON value. Numbers are carried as they were parsed; object members
/// keep their order, and their keys are distinct.
#[derive(Debug)]
pub enum JsonValue {
    Null,
    Bool(bool),
    Number(serde_json::Number),
    String(String),
    Array(Vec<JsonValue>),
    Object(Vec<(String, JsonValue)>),
}

/// The value of the first member of `members` named `key`.
pub open spec fn member(members: Seq<(String, JsonValue)>, key: Seq<char>) -> Option<JsonValue>
    decreases members.len(),
{
    if members.len() == 0 {
        None
    } else if members[0].0@ == key {
        Some(members[0].1)
    } else {
        member(members.drop_first(), key)
    }
}

/// The text of the member named `key`, when there is one and it is a string.
pub open spec fn string_member(members: Seq<(String, JsonValue)>, key: Seq<char>) -> Option<Seq<char>> {
    match member(members, key) {
        Some(JsonValue::String(s)) => Some(s@),
        _ => None,
    }
}

/// Finds the member named `key`.
pub fn get_member<'a>(members: &'a Vec<(String, JsonValue)>, key: &str) -> (r: Option<&'a JsonValue>)
    ensures
        match member(members@, key@) {
            Some(v) => r == Some(&v),
            None => r is None,
        },
{
    let mut i: usize = 0;
    assert(members@.skip(0) =~= members@);
    while i < members.len()
        invariant
            i <= members.len(),
            member(members@, key@) == member(members@.skip(i as int), key@),
        decreases members.len() - i,
    {
        assert(members@.skip(i as int).drop_first() =~= members@.skip(i + 1));
        if crate::text::str_equal(members[i].0.as_str(), key) {
            return Some(&members[i].1);
        }
        i += 1;
    }
    None
}

/// The text of the member named `key`, when it is a string.
pub fn get_string_member(members: &Vec<(String, JsonValue)>, key: &str) -> (r: Option<String>)
    ensures
        match r {
            Some(s) => string_member(members@, key@) == Some(s@),
            None => string_member(members@, key@) is None,
        },
{
    match get_member(members, key) {
        Some(JsonValue::String(s)) => Some(s.clone()),
        _ => None,
    }
}

} // verus!
