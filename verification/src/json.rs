//! A model of the JSON documents that the OpenMetadata API returns.
//!
//! Objects keep their entries in order; a key is looked up by its first
//! entry, which is the only entry when the object came from a parsed
//! document. A number is held as decimal text: the form in which the JSON
//! parser prints the number it read, not necessarily the text of the document.

use vstd::prelude::*;
use crate::text::{owned, str_eq};

verus! {

/// A JSON value.
#[derive(Debug)]
pub enum Json {
    Null,
    Bool(bool),
    /// A number, as the decimal text that the JSON parser prints for it.
    Number(String),
    Str(String),
    Array(Vec<Json>),
    Object(Vec<(String, Json)>),
}

/// The value of the first entry of `entries` whose key is `key`.
pub open spec fn lookup(entries: Seq<(String, Json)>, key: Seq<char>) -> Option<Json>
    decreases entries.len(),
{
    if entries.len() == 0 {
        None
    } else if entries[0].0@ == key {
        Some(entries[0].1)
    } else {
        lookup(entries.drop_first(), key)
    }
}

/// The value behind an optional reference.
pub open spec fn deref_opt(r: Option<&Json>) -> Option<Json> {
    match r {
        Some(x) => Some(*x),
        None => None,
    }
}

/// The values behind a sequence of references.
pub open spec fn derefs(s: Seq<&Json>) -> Seq<Json> {
    s.map_values(|r: &Json| *r)
}

/// `j` is an empty array.
pub open spec fn is_empty_array(j: Json) -> bool {
    match j {
        Json::Array(a) => a@.len() == 0,
        _ => false,
    }
}

/// `j` is an object whose entries are exactly `keys`, in order, each holding
/// an empty array.
pub open spec fn empty_arrays_object(j: Json, keys: Seq<Seq<char>>) -> bool {
    match j {
        Json::Object(e) => {
            &&& e@.len() == keys.len()
            &&& forall|i: int|
                0 <= i < e@.len() ==> (#[trigger] e@[i]).0@ == keys[i] && is_empty_array(e@[i].1)
        },
        _ => false,
    }
}

/// The value of `j` when it is an object with the single entry `key`.
pub open spec fn sole_member(j: Json, key: Seq<char>) -> Option<Json> {
    match j {
        Json::Object(e) => if e@.len() == 1 && e@[0].0@ == key {
            Some(e@[0].1)
        } else {
            None
        },
        _ => None,
    }
}

impl Json {
    /// The member `key` of an object; `None` for a missing key or a non-object.
    pub open spec fn member(self, key: Seq<char>) -> Option<Json> {
        match self {
            Json::Object(entries) => lookup(entries@, key),
            _ => None,
        }
    }

    /// The characters of a string value.
    pub open spec fn string_value(self) -> Option<Seq<char>> {
        match self {
            Json::Str(s) => Some(s@),
            _ => None,
        }
    }

    /// The elements of an array value.
    pub open spec fn array_value(self) -> Option<Seq<Json>> {
        match self {
            Json::Array(a) => Some(a@),
            _ => None,
        }
    }

    /// The string held by member `key`, if that member is a string.
    pub open spec fn str_member(self, key: Seq<char>) -> Option<Seq<char>> {
        match self.member(key) {
            Some(v) => v.string_value(),
            None => None,
        }
    }

    /// The elements held by member `key`, if that member is an array.
    pub open spec fn array_member(self, key: Seq<char>) -> Option<Seq<Json>> {
        match self.member(key) {
            Some(v) => v.array_value(),
            None => None,
        }
    }

    /// The elements held by member `key`, or none at all.
    pub open spec fn array_member_or_empty(self, key: Seq<char>) -> Seq<Json> {
        match self.array_member(key) {
            Some(a) => a,
            None => Seq::empty(),
        }
    }

    /// Member `key` of an object (`serde_json::Value::get`).
    pub fn get(&self, key: &str) -> (r: Option<&Json>)
        ensures
            deref_opt(r) == self.member(key@),
    {
        match self {
            Json::Object(entries) => {
                let mut i: usize = 0;
                assert(entries@.subrange(0, entries@.len() as int) =~= entries@);
                while i < entries.len()
                    invariant
                        i <= entries@.len(),
                        self.member(key@) == lookup(entries@, key@),
                        lookup(entries@, key@) == lookup(
                            entries@.subrange(i as int, entries@.len() as int),
                            key@,
                        ),
                    decreases entries.len() - i,
                {
                    let ghost rest = entries@.subrange(i as int, entries@.len() as int);
                    assert(rest[0] == entries@[i as int]);
                    if str_eq(entries[i].0.as_str(), key) {
                        return Some(&entries[i].1);
                    }
                    assert(rest.drop_first() =~= entries@.subrange(i + 1, entries@.len() as int));
                    i = i + 1;
                }
                None
            },
            _ => None,
        }
    }

    /// The string of a string value (`serde_json::Value::as_str`).
    pub fn as_str(&self) -> (r: Option<&String>)
        ensures
            match r {
                Some(s) => self.string_value() == Some(s@),
                None => self.string_value() is None,
            },
    {
        match self {
            Json::Str(s) => Some(s),
            _ => None,
        }
    }

    /// The elements of an array value (`serde_json::Value::as_array`).
    pub fn as_array(&self) -> (r: Option<&Vec<Json>>)
        ensures
            match r {
                Some(a) => self.array_value() == Some(a@),
                None => self.array_value() is None,
            },
    {
        match self {
            Json::Array(a) => Some(a),
            _ => None,
        }
    }

    /// The string held by member `key`.
    pub fn str_at(&self, key: &str) -> (r: Option<&String>)
        ensures
            match r {
                Some(s) => self.str_member(key@) == Some(s@),
                None => self.str_member(key@) is None,
            },
    {
        match self.get(key) {
            Some(v) => v.as_str(),
            None => None,
        }
    }

    /// The elements held by member `key`.
    pub fn array_at(&self, key: &str) -> (r: Option<&Vec<Json>>)
        ensures
            match r {
                Some(a) => self.array_member(key@) == Some(a@),
                None => self.array_member(key@) is None,
            },
    {
        match self.get(key) {
            Some(v) => v.as_array(),
            None => None,
        }
    }

    /// Whether this is `null`.
    pub fn is_null(&self) -> (r: bool)
        ensures
            r == (*self is Null),
    {
        match self {
            Json::Null => true,
            _ => false,
        }
    }

    /// A string value holding `s`.
    pub fn string(s: &str) -> (r: Json)
        ensures
            r.string_value() == Some(s@),
    {
        Json::Str(owned(s))
    }
}

} // verus!
