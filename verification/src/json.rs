//! A JSON document as the request logic reads it, with the lookups that
//! the logic makes: an object's field, a string, an unsigned number.

use vstd::prelude::*;
use vstd::string::StringExecFns;
use crate::text::str_eq;

verus! {

broadcast use vstd::string::group_string_axioms;

/// A JSON number: the value as an unsigned 64-bit integer where it is one,
/// and the number's text as it appears in the document.
#[derive(Debug, PartialEq, Eq)]
pub struct JsonNumber {
    pub as_u64: Option<u64>,
    pub text: String,
}

/// A JSON value. An object keeps its members in order, each key once.
#[derive(Debug, PartialEq, Eq)]
pub enum Json {
    Null,
    Bool(bool),
    Number(JsonNumber),
    Str(String),
    Array(Vec<Json>),
    Object(Vec<(String, Json)>),
}

/// The place of the first member of `members` named `key`.
pub open spec fn member_index(members: Seq<(String, Json)>, key: Seq<char>) -> Option<int> {
    if exists|i: int| 0 <= i < members.len() && members[i].0@ == key {
        Some(
            choose|i: int|
                0 <= i < members.len() && members[i].0@ == key && forall|j: int|
                    0 <= j < i ==> members[j].0@ != key,
        )
    } else {
        None
    }
}

/// The field `key` of `v`: the value of the member named `key` when `v` is
/// an object that has one.
pub open spec fn field(v: Option<Json>, key: Seq<char>) -> Option<Json> {
    match v {
        Some(Json::Object(members)) => match member_index(members@, key) {
            Some(i) => Some(members@[i].1),
            None => None,
        },
        _ => None,
    }
}

/// The text of `v` when it is a string.
pub open spec fn as_text(v: Option<Json>) -> Option<Seq<char>> {
    match v {
        Some(Json::Str(s)) => Some(s@),
        _ => None,
    }
}

/// The value of `v` when it is a number that is an unsigned 64-bit integer.
pub open spec fn as_unsigned(v: Option<Json>) -> Option<u64> {
    match v {
        Some(Json::Number(n)) => n.as_u64,
        _ => None,
    }
}

/// The value that an optional reference points to.
pub open spec fn deref(v: Option<&Json>) -> Option<Json> {
    match v {
        Some(j) => Some(*j),
        None => None,
    }
}

/// Where some member is named `key`, a first such member exists.
proof fn lemma_first_member(members: Seq<(String, Json)>, key: Seq<char>, i: int)
    requires
        0 <= i < members.len(),
        members[i].0@ == key,
    ensures
        exists|x: int|
            0 <= x < members.len() && members[x].0@ == key && forall|j: int| 0 <= j < x ==> members[j].0@ != key,
    decreases i,
{
    if exists|j: int| 0 <= j < i && members[j].0@ == key {
        let j = choose|j: int| 0 <= j < i && members[j].0@ == key;
        lemma_first_member(members, key, j);
    }
}

/// The field `key` of `v`, as `serde_json::Value::get` finds it.
pub fn get_field<'a>(v: Option<&'a Json>, key: &str) -> (r: Option<&'a Json>)
    ensures
        match r {
            Some(x) => field(deref(v), key@) == Some(*x),
            None => field(deref(v), key@) is None,
        },
{
    let members = match v {
        Some(Json::Object(members)) => members,
        _ => return None,
    };
    let mut i: usize = 0;
    while i < members.len()
        invariant
            deref(v) == Some(Json::Object(*members)),
            i <= members@.len(),
            forall|j: int| 0 <= j < i ==> members@[j].0@ != key@,
        decreases members@.len() - i,
    {
        if str_eq(members[i].0.as_str(), key) {
            proof {
                lemma_first_member(members@, key@, i as int);
                let c = choose|x: int|
                    0 <= x < members@.len() && members@[x].0@ == key@ && forall|j: int|
                        0 <= j < x ==> members@[j].0@ != key@;
                assert(members@[i as int].0@ == key@);
                if c < i {
                    assert(members@[c].0@ != key@);
                } else if c > i {
                    assert(members@[i as int].0@ == key@);
                }
                assert(member_index(members@, key@) == Some(i as int));
                assert(field(Some(Json::Object(*members)), key@) == Some(members@[i as int].1));
            }
            return Some(&members[i].1);
        }
        i = i + 1;
    }
    None
}

/// The text of `v` when it is a string, as `serde_json::Value::as_str` gives it.
pub fn text_of(v: Option<&Json>) -> (r: Option<&str>)
    ensures
        match r {
            Some(s) => as_text(deref(v)) == Some(s@),
            None => as_text(deref(v)) is None,
        },
{
    match v {
        Some(Json::Str(s)) => Some(s.as_str()),
        _ => None,
    }
}

/// The value of `v` when it is an unsigned number, as `serde_json::Value::as_u64` gives it.
pub fn unsigned_of(v: Option<&Json>) -> (r: Option<u64>)
    ensures
        r == as_unsigned(deref(v)),
{
    match v {
        Some(Json::Number(n)) => n.as_u64,
        _ => None,
    }
}

/// `new` is `old` with the member `key` set to a string of text `text`:
/// the member is replaced in place when there is one, else appended.
pub open spec fn member_set(old: Seq<(String, Json)>, new: Seq<(String, Json)>, key: Seq<char>, text: Seq<char>) -> bool {
    match member_index(old, key) {
        Some(i) => {
            &&& new.len() == old.len()
            &&& new[i].0@ == key
            &&& as_text(Some(new[i].1)) == Some(text)
            &&& forall|j: int| 0 <= j < old.len() && j != i ==> new[j] == old[j]
        },
        None => {
            &&& new.len() == old.len() + 1
            &&& new.last().0@ == key
            &&& as_text(Some(new.last().1)) == Some(text)
            &&& forall|j: int| 0 <= j < old.len() ==> new[j] == old[j]
        },
    }
}

/// Set the member `key` of an object to the string `text`, as assigning
/// `value[key]` does on a `serde_json::Value` object.
pub fn set_text_member(members: &mut Vec<(String, Json)>, key: &str, text: &str)
    ensures
        member_set(old(members)@, final(members)@, key@, text@),
{
    let ghost old_members = members@;
    let mut i: usize = 0;
    while i < members.len()
        invariant
            members@ == old_members,
            old_members == old(members)@,
            i <= members@.len(),
            forall|j: int| 0 <= j < i ==> members@[j].0@ != key@,
        decreases members@.len() - i,
    {
        if str_eq(members[i].0.as_str(), key) {
            proof {
                lemma_first_member(members@, key@, i as int);
                let c = choose|x: int|
                    0 <= x < members@.len() && members@[x].0@ == key@ && forall|j: int|
                        0 <= j < x ==> members@[j].0@ != key@;
                assert(members@[i as int].0@ == key@);
                if c < i {
                    assert(members@[c].0@ != key@);
                } else if c > i {
                    assert(members@[i as int].0@ == key@);
                }
                assert(member_index(members@, key@) == Some(i as int));
            }
            members.set(i, (String::from_str(key), Json::Str(String::from_str(text))));
            return;
        }
        i = i + 1;
    }
    assert(member_index(members@, key@) is None);
    members.push((String::from_str(key), Json::Str(String::from_str(text))));
}

} // verus!
