//! A JSON document model: the values that workflow files and hook
//! configurations are read into.

use vstd::prelude::*;

verus! {

broadcast use vstd::std_specs::vec::group_vec_axioms;

/// A JSON number, as the parser reported it: its value as an unsigned or
/// signed 64-bit integer where it is one, and its text.
#[derive(Debug, PartialEq)]
pub struct JsonNumber {
    pub unsigned: Option<u64>,
    pub signed: Option<i64>,
    pub text: String,
}

/// A JSON value. Object members keep the order in which they were read.
#[derive(Debug, PartialEq)]
pub enum JsonValue {
    Null,
    Bool(bool),
    Number(JsonNumber),
    Str(String),
    Array(Vec<JsonValue>),
    Object(Vec<(String, JsonValue)>),
}

/// The mathematical content of a JSON value.
pub enum Json {
    Null,
    Bool(bool),
    Number(Option<u64>, Option<i64>, Seq<char>),
    Str(Seq<char>),
    Array(Seq<Json>),
    Object(Seq<(Seq<char>, Json)>),
}

/// The content of a value, element by element.
pub open spec fn json_of(v: JsonValue) -> Json
    decreases v,
{
    match v {
        JsonValue::Null => Json::Null,
        JsonValue::Bool(b) => Json::Bool(b),
        JsonValue::Number(n) => Json::Number(n.unsigned, n.signed, n.text@),
        JsonValue::Str(s) => Json::Str(s@),
        JsonValue::Array(items) => Json::Array(
            Seq::new(
                items.len() as nat,
                |i: int|
                    if 0 <= i < items.len() {
                        json_of(items[i])
                    } else {
                        Json::Null
                    },
            ),
        ),
        JsonValue::Object(members) => Json::Object(
            Seq::new(
                members.len() as nat,
                |i: int|
                    if 0 <= i < members.len() {
                        (members[i].0@, json_of(members[i].1))
                    } else {
                        (Seq::empty(), Json::Null)
                    },
            ),
        ),
    }
}

/// A copy of a value with the same content.
pub fn clone_json(v: &JsonValue) -> (r: JsonValue)
    ensures
        json_of(r) == json_of(*v),
    decreases v,
{
    match v {
        JsonValue::Null => JsonValue::Null,
        JsonValue::Bool(b) => JsonValue::Bool(*b),
        JsonValue::Number(n) => JsonValue::Number(
            JsonNumber { unsigned: n.unsigned, signed: n.signed, text: n.text.clone() },
        ),
        JsonValue::Str(s) => JsonValue::Str(s.clone()),
        JsonValue::Array(items) => {
            let mut out: Vec<JsonValue> = Vec::new();
            let mut i: usize = 0;
            while i < items.len()
                invariant
                    i <= items.len(),
                    *v == JsonValue::Array(*items),
                    out.len() == i,
                    forall|k: int| 0 <= k < i ==> json_of(#[trigger] out[k]) == json_of(items[k]),
                decreases items.len() - i,
            {
                proof {
                    assert(decreases_to!(*v => (*v)->Array_0));
                    assert(decreases_to!(*items => items[i as int]));
                }
                let c = clone_json(&items[i]);
                out.push(c);
                i += 1;
            }
            let r = JsonValue::Array(out);
            assert(json_of(r) matches Json::Array(a) && a =~= (match json_of(*v) { Json::Array(b) => b, _ => a }));
            r
        },
        JsonValue::Object(members) => {
            let mut out: Vec<(String, JsonValue)> = Vec::new();
            let mut i: usize = 0;
            while i < members.len()
                invariant
                    i <= members.len(),
                    *v == JsonValue::Object(*members),
                    out.len() == i,
                    forall|k: int| 0 <= k < i ==> (#[trigger] out[k]).0@ == members[k].0@,
                    forall|k: int| 0 <= k < i ==> json_of((#[trigger] out[k]).1) == json_of(members[k].1),
                decreases members.len() - i,
            {
                let k = members[i].0.clone();
                proof {
                    assert(decreases_to!(*v => (*v)->Object_0));
                    assert(decreases_to!(*members => members[i as int]));
                    assert(decreases_to!(members[i as int] => members[i as int].1));
                }
                let c = clone_json(&members[i].1);
                out.push((k, c));
                i += 1;
            }
            let r = JsonValue::Object(out);
            assert(json_of(r) matches Json::Object(a) && a =~= (match json_of(*v) { Json::Object(b) => b, _ => a }));
            r
        },
    }
}

/// The value of the first member named `key`.
pub open spec fn lookup(members: Seq<(String, JsonValue)>, key: Seq<char>) -> Option<JsonValue>
    decreases members.len(),
{
    if members.len() == 0 {
        None
    } else if members[0].0@ == key {
        Some(members[0].1)
    } else {
        lookup(members.drop_first(), key)
    }
}

/// The member `key` of an object; `None` for other values.
pub open spec fn member(v: JsonValue, key: Seq<char>) -> Option<JsonValue> {
    match v {
        JsonValue::Object(members) => lookup(members@, key),
        _ => None,
    }
}

/// The text of a string value.
pub open spec fn str_of(v: JsonValue) -> Option<Seq<char>> {
    match v {
        JsonValue::Str(s) => Some(s@),
        _ => None,
    }
}

/// A number's value where it is an unsigned 64-bit integer.
pub open spec fn u64_of(v: JsonValue) -> Option<u64> {
    match v {
        JsonValue::Number(n) => n.unsigned,
        _ => None,
    }
}

/// `r` is `Some(&x)` exactly where `o` is `Some(x)`.
pub open spec fn same_opt<T>(r: Option<&T>, o: Option<T>) -> bool {
    match r {
        Some(x) => o == Some(*x),
        None => o is None,
    }
}

/// The value of the first member named `key`.
pub fn lookup_member<'a>(members: &'a Vec<(String, JsonValue)>, key: &str) -> (r: Option<&'a JsonValue>)
    ensures
        same_opt(r, lookup(members@, key@)),
{
    let mut i: usize = 0;
    assert(members@.skip(0) =~= members@);
    while i < members.len()
        invariant
            i <= members@.len(),
            lookup(members@, key@) == lookup(members@.skip(i as int), key@),
        decreases members.len() - i,
    {
        assert(members@.skip(i as int).drop_first() =~= members@.skip(i + 1));
        assert(members@.skip(i as int)[0] == members@[i as int]);
        if crate::text::str_equal(members[i].0.as_str(), key) {
            assert(members@[i as int].0@ == key@);
            return Some(&members[i].1);
        }
        i += 1;
    }
    assert(members@.skip(i as int).len() == 0);
    None
}

/// The member `key` of an object (the first of that name).
pub fn get<'a>(v: &'a JsonValue, key: &str) -> (r: Option<&'a JsonValue>)
    ensures
        same_opt(r, member(*v, key@)),
{
    match v {
        JsonValue::Object(members) => lookup_member(members, key),
        _ => None,
    }
}

/// The text of a string value.
pub fn as_str(v: &JsonValue) -> (r: Option<&String>)
    ensures
        match r {
            Some(s) => str_of(*v) == Some(s@),
            None => str_of(*v) is None,
        },
{
    match v {
        JsonValue::Str(s) => Some(s),
        _ => None,
    }
}

/// A number's value where it is an unsigned 64-bit integer.
pub fn as_u64(v: &JsonValue) -> (r: Option<u64>)
    ensures
        r == u64_of(*v),
{
    match v {
        JsonValue::Number(n) => n.unsigned,
        _ => None,
    }
}

/// The elements of an array.
pub fn as_array(v: &JsonValue) -> (r: Option<&Vec<JsonValue>>)
    ensures
        match r {
            Some(items) => *v == JsonValue::Array(*items),
            None => !(v is Array),
        },
{
    match v {
        JsonValue::Array(items) => Some(items),
        _ => None,
    }
}

/// The members of an object.
pub fn as_object(v: &JsonValue) -> (r: Option<&Vec<(String, JsonValue)>>)
    ensures
        match r {
            Some(members) => *v == JsonValue::Object(*members),
            None => !(v is Object),
        },
{
    match v {
        JsonValue::Object(members) => Some(members),
        _ => None,
    }
}

/// A value's boolean where it is one.
pub open spec fn bool_of(v: JsonValue) -> Option<bool> {
    match v {
        JsonValue::Bool(b) => Some(b),
        _ => None,
    }
}

/// A value's boolean where it is one.
pub fn as_bool(v: &JsonValue) -> (r: Option<bool>)
    ensures
        r == bool_of(*v),
{
    match v {
        JsonValue::Bool(b) => Some(*b),
        _ => None,
    }
}

/// The value a reference points to, where there is one.
pub open spec fn deref_opt(o: Option<&JsonValue>) -> Option<JsonValue> {
    match o {
        Some(v) => Some(*v),
        None => None,
    }
}

/// The member `key` of a value that may be absent.
pub open spec fn at(o: Option<JsonValue>, key: Seq<char>) -> Option<JsonValue> {
    match o {
        Some(v) => member(v, key),
        None => None,
    }
}

/// The member `key` of a value that may be absent.
pub fn get_in<'a>(o: Option<&'a JsonValue>, key: &str) -> (r: Option<&'a JsonValue>)
    ensures
        deref_opt(r) == at(deref_opt(o), key@),
{
    match o {
        Some(v) => get(v, key),
        None => None,
    }
}

} // verus!
