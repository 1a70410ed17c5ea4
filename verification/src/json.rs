//! JSON as the desktop's tools print it, held as plain values: what a
//! compositor reports, and the one-line messages the hotkey and browser
//! sockets carry.
use crate::text::{chars_of, same};
use serde_json::Value;
use vstd::prelude::*;

verus! {

/// A JSON value. A number keeps its value when it is a whole number from 0
/// to `u64::MAX` (the only numbers read here), and the number as
/// `serde_json` writes it.
#[derive(Debug)]
pub enum Json {
    Null,
    Bool(bool),
    Number(Option<u64>, String),
    Str(String),
    Array(Vec<Json>),
    /// Members in the order `serde_json` keeps them; keys are unique.
    Object(Vec<(String, Json)>),
}

/// What `serde_json` reads from a text, converted member by member; `None`
/// when the text is not JSON.
pub uninterp spec fn json_of(text: Seq<char>) -> Option<Json>;

/// `serde_json::from_str` into a `serde_json::Value`, converted to `Json`.
/// Each element and member is converted by reading its own rendering the
/// same way. Claimed: the result is `json_of` of the text, and a failure
/// exactly when `json_of` is `None`; the failure's wording is the crate's.
#[verifier::external_body]
pub(crate) fn parse_json(text: &str) -> (r: Result<Json, String>)
    ensures
        match json_of(text@) {
            Some(j) => r == Ok::<Json, String>(j),
            None => r is Err,
        },
{
    let v: Value = serde_json::from_str(text).map_err(|e| e.to_string())?;
    Ok(match v {
        Value::Null => Json::Null,
        Value::Bool(b) => Json::Bool(b),
        Value::Number(n) => Json::Number(n.as_u64(), n.to_string()),
        Value::String(s) => Json::Str(s),
        Value::Array(a) => Json::Array(a.iter().map(|x| parse_json(&x.to_string()).unwrap_or(Json::Null)).collect()),
        Value::Object(o) => Json::Object(o.iter().map(|(k, x)| (k.clone(), parse_json(&x.to_string()).unwrap_or(Json::Null))).collect()),
    })
}

/// The text `serde_json` writes for a value (`Value`'s `Display`): the
/// value that converts to `j`, written compactly.
pub uninterp spec fn json_text(j: Json) -> Seq<char>;

/// `serde_json::Value::to_string`, on the value that converts to `j`: `j`
/// is converted back member by member, each through its own rendering.
/// Claimed: the result is `json_text` of `j`.
#[verifier::external_body]
pub(crate) fn render_json(j: &Json) -> (r: String)
    ensures
        r@ == json_text(*j),
{
    let back = |x: &Json| serde_json::from_str(&render_json(x)).unwrap_or(Value::Null);
    let v = match j {
        Json::Null => Value::Null,
        Json::Bool(b) => Value::Bool(*b),
        Json::Number(_, t) => serde_json::from_str(t).unwrap_or(Value::Null),
        Json::Str(s) => Value::String(s.clone()),
        Json::Array(a) => Value::Array(a.iter().map(back).collect()),
        Json::Object(m) => Value::Object(m.iter().map(|(k, x)| (k.clone(), back(x))).collect()),
    };
    v.to_string()
}

/// Index of the first member named `key`, from `k` on.
pub open spec fn member_from(m: Seq<(String, Json)>, key: Seq<char>, k: int) -> Option<int>
    decreases m.len() - k,
{
    if k < 0 || k >= m.len() {
        None
    } else if m[k].0@ == key {
        Some(k)
    } else {
        member_from(m, key, k + 1)
    }
}

/// The value of an object's member `key`; `None` for a missing member or
/// a value that is not an object (`Value::get`).
pub open spec fn field(j: Json, key: Seq<char>) -> Option<Json> {
    match j {
        Json::Object(m) => match member_from(m@, key, 0) {
            Some(i) => Some(m@[i].1),
            None => None,
        },
        _ => None,
    }
}

pub open spec fn as_str(o: Option<Json>) -> Option<Seq<char>> {
    match o {
        Some(Json::Str(s)) => Some(s@),
        _ => None,
    }
}

pub open spec fn as_bool(o: Option<Json>) -> Option<bool> {
    match o {
        Some(Json::Bool(b)) => Some(b),
        _ => None,
    }
}

pub open spec fn as_u64(o: Option<Json>) -> Option<u64> {
    match o {
        Some(Json::Number(n, _)) => n,
        _ => None,
    }
}

/// An absent text, or one that is not a string, read as `dflt`.
pub open spec fn str_or(o: Option<Json>, dflt: Seq<char>) -> Seq<char> {
    match as_str(o) {
        Some(s) => s,
        None => dflt,
    }
}

pub proof fn lemma_member_from(m: Seq<(String, Json)>, key: Seq<char>, k: int)
    requires
        0 <= k,
    ensures
        match member_from(m, key, k) {
            Some(i) => k <= i < m.len() && m[i].0@ == key && forall|j: int| k <= j < i ==> #[trigger] m[j].0@ != key,
            None => forall|j: int| k <= j < m.len() ==> #[trigger] m[j].0@ != key,
        },
    decreases m.len() - k,
{
    if k < m.len() && m[k].0@ != key {
        lemma_member_from(m, key, k + 1);
    }
}

/// Index of the first member named `key`.
pub fn member_index(m: &Vec<(String, Json)>, key: &str) -> (r: Option<usize>)
    ensures
        match r {
            Some(i) => member_from(m@, key@, 0) == Some(i as int) && i < m@.len(),
            None => member_from(m@, key@, 0) is None,
        },
{
    let k = chars_of(key);
    let mut i: usize = 0;
    while i < m.len()
        invariant
            i <= m.len(),
            k@ == key@,
            forall|j: int| 0 <= j < i ==> #[trigger] m@[j].0@ != key@,
        decreases m.len() - i,
    {
        if same(&chars_of(m[i].0.as_str()), &k) {
            proof {
                lemma_member_from(m@, key@, 0);
                let f = member_from(m@, key@, 0);
                if f is None {
                    assert(m@[i as int].0@ != key@);
                }
                if f->0 < i {
                    assert(m@[f->0].0@ != key@);
                }
            }
            return Some(i);
        }
        i = i + 1;
    }
    proof {
        lemma_member_from(m@, key@, 0);
    }
    None
}

/// `Value::get`: the member `key` of an object.
pub fn get<'a>(j: &'a Json, key: &str) -> (r: Option<&'a Json>)
    ensures
        match field(*j, key@) {
            Some(x) => r matches Some(y) && *y == x,
            None => r is None,
        },
{
    match j {
        Json::Object(m) => match member_index(m, key) {
            Some(i) => Some(&m[i].1),
            None => None,
        },
        _ => None,
    }
}

/// `Value::as_str` of an optional value.
pub fn str_of<'a>(o: Option<&'a Json>) -> (r: Option<&'a str>)
    ensures
        match as_str(match o {
            Some(x) => Some(*x),
            None => None,
        }) {
            Some(s) => r matches Some(t) && t@ == s,
            None => r is None,
        },
{
    match o {
        Some(Json::Str(s)) => Some(s.as_str()),
        _ => None,
    }
}

/// `Value::as_bool` of an optional value.
pub fn bool_of(o: Option<&Json>) -> (r: Option<bool>)
    ensures
        r == as_bool(match o {
            Some(x) => Some(*x),
            None => None,
        }),
{
    match o {
        Some(Json::Bool(b)) => Some(*b),
        _ => None,
    }
}

/// `Value::as_u64` of an optional value.
pub fn u64_of(o: Option<&Json>) -> (r: Option<u64>)
    ensures
        r == as_u64(match o {
            Some(x) => Some(*x),
            None => None,
        }),
{
    match o {
        Some(Json::Number(n, _)) => *n,
        _ => None,
    }
}

} // verus!
