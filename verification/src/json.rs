//! JSON documents as the platform APIs answer them, and the lookups the
//! stream-info updater makes in them.
use vstd::prelude::*;

use crate::text::str_eq;

verus! {

/// A JSON value. Numbers that are integers within `i64` are held as such
/// (that is all the updater reads of a number); any other number keeps its
/// text.
#[derive(Debug)]
pub enum Json {
    Null,
    Bool(bool),
    Int(i64),
    OtherNumber(String),
    Str(String),
    Array(Vec<Json>),
    Object(Vec<(String, Json)>),
}

/// The value of the first entry named `key`, if any.
pub open spec fn entry_value(entries: Seq<(String, Json)>, key: Seq<char>) -> Option<Json>
    decreases entries.len(),
{
    if entries.len() == 0 {
        None
    } else if entries[0].0@ == key {
        Some(entries[0].1)
    } else {
        entry_value(entries.drop_first(), key)
    }
}

/// `value.get(key)`: the member `key` of an object, `None` for anything
/// else.
pub open spec fn member(v: Json, key: Seq<char>) -> Option<Json> {
    match v {
        Json::Object(entries) => entry_value(entries@, key),
        _ => None,
    }
}

/// `value.get(i)`: the element `i` of an array, `None` for anything else.
pub open spec fn element(v: Json, i: int) -> Option<Json> {
    match v {
        Json::Array(items) => if 0 <= i < items@.len() { Some(items@[i]) } else { None },
        _ => None,
    }
}

/// `value.as_str()`.
pub open spec fn text_of(v: Json) -> Option<Seq<char>> {
    match v {
        Json::Str(s) => Some(s@),
        _ => None,
    }
}

/// `value.as_i64()`.
pub open spec fn int_of(v: Json) -> Option<i64> {
    match v {
        Json::Int(n) => Some(n),
        _ => None,
    }
}

/// Optional chaining of `member`.
pub open spec fn member_of(v: Option<Json>, key: Seq<char>) -> Option<Json> {
    match v {
        Some(x) => member(x, key),
        None => None,
    }
}

/// Optional chaining of `element`.
pub open spec fn element_of(v: Option<Json>, i: int) -> Option<Json> {
    match v {
        Some(x) => element(x, i),
        None => None,
    }
}

/// Optional chaining of `text_of`.
pub open spec fn text_in(v: Option<Json>) -> Option<Seq<char>> {
    match v {
        Some(x) => text_of(x),
        None => None,
    }
}

impl Json {
    /// The member `key` of an object (`None` for other values or a missing
    /// key).
    pub fn get(&self, key: &str) -> (r: Option<&Json>)
        ensures
            match member(*self, key@) {
                Some(v) => r.is_some() && *r.unwrap() == v,
                None => r.is_none(),
            },
    {
        match self {
            Json::Object(entries) => {
                let n = entries.len();
                let mut i: usize = 0;
                assert(entries@.subrange(0, n as int) =~= entries@);
                while i < n
                    invariant
                        n == entries@.len(),
                        i <= n,
                        member(*self, key@) == entry_value(entries@, key@),
                        entry_value(entries@, key@) == entry_value(entries@.subrange(i as int, n as int), key@),
                    decreases n - i,
                {
                    assert(entries@.subrange(i as int, n as int).drop_first() =~= entries@.subrange(i + 1, n as int));
                    if str_eq(entries[i].0.as_str(), key) {
                        assert(entries@.subrange(i as int, n as int)[0] == entries@[i as int]);
                        return Some(&entries[i].1);
                    }
                    i = i + 1;
                }
                None
            },
            _ => None,
        }
    }

    /// The element `i` of an array (`None` for other values or an index
    /// past the end).
    pub fn at(&self, i: usize) -> (r: Option<&Json>)
        ensures
            match element(*self, i as int) {
                Some(v) => r.is_some() && *r.unwrap() == v,
                None => r.is_none(),
            },
    {
        match self {
            Json::Array(items) => {
                if i < items.len() {
                    Some(&items[i])
                } else {
                    None
                }
            },
            _ => None,
        }
    }

    /// The text of a string value.
    pub fn as_str(&self) -> (r: Option<&str>)
        ensures
            match text_of(*self) {
                Some(s) => r.is_some() && r.unwrap()@ == s,
                None => r.is_none(),
            },
    {
        match self {
            Json::Str(s) => Some(s.as_str()),
            _ => None,
        }
    }

    /// The value of an integer that fits `i64`.
    pub fn as_i64(&self) -> (r: Option<i64>)
        ensures
            r == int_of(*self),
    {
        match self {
            Json::Int(n) => Some(*n),
            _ => None,
        }
    }
}

} // verus!
