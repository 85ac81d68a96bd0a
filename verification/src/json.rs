//! A plain JSON document tree, as the server's checks read it.
use vstd::prelude::*;
use crate::text::str_eq;

verus! {

/// A JSON value. Numbers are kept as their decimal text; object members keep
/// their order.
#[derive(Debug)]
pub enum JsonValue {
    Null,
    Bool(bool),
    Number(String),
    String(String),
    Array(Vec<JsonValue>),
    Object(Vec<(String, JsonValue)>),
}

/// The position of the first member named `key`.
pub open spec fn member_index(members: Seq<(String, JsonValue)>, key: Seq<char>) -> Option<int>
    decreases members.len(),
{
    if members.len() == 0 {
        None
    } else if members[0].0@ == key {
        Some(0)
    } else {
        match member_index(members.skip(1), key) {
            Some(i) => Some(i + 1),
            None => None,
        }
    }
}

/// The value of member `key` of an object, if `value` is an object that has it.
pub open spec fn member(value: JsonValue, key: Seq<char>) -> Option<JsonValue> {
    match value {
        JsonValue::Object(members) => match member_index(members@, key) {
            Some(i) => Some(members@[i].1),
            None => None,
        },
        _ => None,
    }
}

/// The text of member `key`, if it exists and is a JSON string.
pub open spec fn member_text(value: JsonValue, key: Seq<char>) -> Option<Seq<char>> {
    match member(value, key) {
        Some(JsonValue::String(s)) => Some(s@),
        _ => None,
    }
}

/// The position of a key is that of its first member, and there is none when
/// no member has the key.
pub proof fn lemma_member_index_bounds(members: Seq<(String, JsonValue)>, key: Seq<char>)
    ensures
        member_index(members, key) matches Some(i) ==> 0 <= i < members.len() && members[i].0@
            == key && forall|j: int| 0 <= j < i ==> members[j].0@ != key,
        member_index(members, key) is None ==> forall|j: int|
            0 <= j < members.len() ==> members[j].0@ != key,
    decreases members.len(),
{
    if members.len() > 0 {
        lemma_member_index_bounds(members.skip(1), key);
        if members[0].0@ != key {
            assert forall|j: int| 1 <= j < members.len() implies members[j] == members.skip(
                1,
            )[j - 1] by {}
        }
    }
}

/// Looks up member `key` of an object: the first member with that name.
pub fn get_member<'a>(value: &'a JsonValue, key: &str) -> (r: Option<&'a JsonValue>)
    ensures
        match member(*value, key@) {
            Some(v) => r matches Some(found) && *found == v,
            None => r is None,
        },
{
    match value {
        JsonValue::Object(members) => {
            proof {
                lemma_member_index_bounds(members@, key@);
            }
            let mut i: usize = 0;
            while i < members.len()
                invariant
                    i <= members@.len(),
                    *value == JsonValue::Object(*members),
                    forall|j: int| 0 <= j < i ==> members@[j].0@ != key@,
                    member_index(members@, key@) matches Some(k) ==> 0 <= k < members@.len()
                        && members@[k].0@ == key@ && forall|j: int|
                        0 <= j < k ==> members@[j].0@ != key@,
                    member_index(members@, key@) is None ==> forall|j: int|
                        0 <= j < members@.len() ==> members@[j].0@ != key@,
                decreases members@.len() - i,
            {
                if str_eq(members[i].0.as_str(), key) {
                    assert(member_index(members@, key@) == Some(i as int));
                    return Some(&members[i].1);
                }
                i = i + 1;
            }
            None
        },
        _ => None,
    }
}

/// Reads member `key` as a string.
pub fn get_text<'a>(value: &'a JsonValue, key: &str) -> (r: Option<&'a str>)
    ensures
        match member_text(*value, key@) {
            Some(s) => r matches Some(found) && found@ == s,
            None => r is None,
        },
{
    match get_member(value, key) {
        Some(JsonValue::String(s)) => Some(s.as_str()),
        _ => None,
    }
}

} // verus!
