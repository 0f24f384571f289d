//! The library's own model of a decoded JSON document.
//!
//! Raw resources arrive as text; a trusted boundary (`raw`) turns them into
//! `JsonValue`, after which every decoding step is verified. Object entries
//! keep the order in which they appear in the source text — the decision-zip
//! transform depends on the order of the target-line mapping's values.
//! Numbers are restricted to 64-bit integers: the dataset carries only
//! integer line ids, and any other number makes the resource undecodable.

use vstd::prelude::*;
use crate::strutil::str_eq;

verus! {

/// One decoded JSON value. `Obj` holds its entries as an ordered list of
/// key/value pairs, first-written first.
pub enum JsonValue {
    Null,
    Bool(bool),
    Int(i64),
    Str(String),
    Arr(Vec<JsonValue>),
    Obj(Vec<(String, JsonValue)>),
}

/// The first entry with the given key, scanning entries in order.
pub open spec fn spec_lookup(entries: Seq<(String, JsonValue)>, key: Seq<char>) -> Option<JsonValue>
    decreases entries.len(),
{
    if entries.len() == 0 {
        None
    } else if entries[0].0@ == key {
        Some(entries[0].1)
    } else {
        spec_lookup(entries.drop_first(), key)
    }
}

impl JsonValue {
    /// The value under `key` if this is an object that has such an entry.
    pub open spec fn spec_get(self, key: Seq<char>) -> Option<JsonValue> {
        match self {
            JsonValue::Obj(entries) => spec_lookup(entries@, key),
            _ => None,
        }
    }

    /// The characters under `key` if that entry exists and is a string.
    pub open spec fn spec_get_str(self, key: Seq<char>) -> Option<Seq<char>> {
        match self.spec_get(key) {
            Some(JsonValue::Str(s)) => Some(s@),
            _ => None,
        }
    }

    /// The integer under `key` if that entry exists and is a number.
    pub open spec fn spec_get_int(self, key: Seq<char>) -> Option<int> {
        match self.spec_get(key) {
            Some(JsonValue::Int(i)) => Some(i as int),
            _ => None,
        }
    }

    /// The boolean under `key` if that entry exists and is a boolean.
    pub open spec fn spec_get_bool(self, key: Seq<char>) -> Option<bool> {
        match self.spec_get(key) {
            Some(JsonValue::Bool(b)) => Some(b),
            _ => None,
        }
    }

    /// An optional string field: `Ok(None)` when absent or null, `Ok(Some)`
    /// when a string, and `Err(())` when present with any other shape.
    pub open spec fn spec_get_opt_str(self, key: Seq<char>) -> Result<Option<Seq<char>>, ()> {
        match self.spec_get(key) {
            None => Ok(None),
            Some(JsonValue::Null) => Ok(None),
            Some(JsonValue::Str(s)) => Ok(Some(s@)),
            Some(_) => Err(()),
        }
    }

    /// An optional boolean field: `Ok(None)` when absent or null, `Ok(Some)`
    /// when a boolean, and `Err(())` when present with any other shape.
    pub open spec fn spec_get_opt_bool(self, key: Seq<char>) -> Result<Option<bool>, ()> {
        match self.spec_get(key) {
            None => Ok(None),
            Some(JsonValue::Null) => Ok(None),
            Some(JsonValue::Bool(b)) => Ok(Some(b)),
            Some(_) => Err(()),
        }
    }

    /// Looks up the first entry with the given key; `None` if this is not an
    /// object or no entry has the key.
    pub fn get<'a>(&'a self, key: &str) -> (r: Option<&'a JsonValue>)
        ensures
            r matches Some(v) ==> self.spec_get(key@) == Some(*v),
            r is None ==> self.spec_get(key@) is None,
    {
        match self {
            JsonValue::Obj(entries) => {
                let n = entries.len();
                proof {
                    assert(entries@.skip(0) =~= entries@);
                }
                let mut i: usize = 0;
                while i < n
                    invariant
                        n == entries@.len(),
                        i <= n,
                        self.spec_get(key@) == spec_lookup(entries@.skip(i as int), key@),
                    decreases n - i,
                {
                    proof {
                        assert(entries@.skip(i as int)[0] == entries@[i as int]);
                    }
                    if str_eq(entries[i].0.as_str(), key) {
                        let ret = &entries[i].1;
                        proof {
                            assert(spec_lookup(entries@.skip(i as int), key@) == Some(
                                entries@[i as int].1,
                            ));
                            assert(*ret == entries@[i as int].1);
                            assert(self.spec_get(key@) == Some(*ret));
                        }
                        return Some(ret);
                    }
                    proof {
                        assert(entries@.skip(i as int).drop_first() =~= entries@.skip(
                            i as int + 1,
                        ));
                    }
                    i += 1;
                }
                proof {
                    assert(entries@.skip(n as int) =~= Seq::<(String, JsonValue)>::empty());
                    assert(self.spec_get(key@) is None);
                }
                None
            },
            _ => None,
        }
    }

    /// A clone of the string under `key`, if that entry exists and is a string.
    pub fn get_string(&self, key: &str) -> (r: Option<String>)
        ensures
            r matches Some(s) ==> self.spec_get_str(key@) == Some(s@),
            r is None <==> self.spec_get_str(key@) is None,
    {
        match self.get(key) {
            Some(JsonValue::Str(s)) => Some(s.clone()),
            _ => None,
        }
    }

    /// The integer under `key`, if that entry exists and is a number.
    pub fn get_i64(&self, key: &str) -> (r: Option<i64>)
        ensures
            r matches Some(i) ==> self.spec_get_int(key@) == Some(i as int),
            r is None <==> self.spec_get_int(key@) is None,
    {
        match self.get(key) {
            Some(JsonValue::Int(i)) => Some(*i),
            _ => None,
        }
    }

    /// The boolean under `key`, if that entry exists and is a boolean.
    pub fn get_bool(&self, key: &str) -> (r: Option<bool>)
        ensures
            r matches Some(b) ==> self.spec_get_bool(key@) == Some(b),
            r is None <==> self.spec_get_bool(key@) is None,
    {
        match self.get(key) {
            Some(JsonValue::Bool(b)) => Some(*b),
            _ => None,
        }
    }

    /// A clone of the optional string under `key`: absent or null count as no
    /// value; any other non-string shape is an error.
    pub fn get_opt_string(&self, key: &str) -> (r: Result<Option<String>, ()>)
        ensures
            match r {
                Ok(None) => self.spec_get_opt_str(key@) == Ok::<Option<Seq<char>>, ()>(None),
                Ok(Some(s)) => self.spec_get_opt_str(key@) == Ok::<Option<Seq<char>>, ()>(
                    Some(s@),
                ),
                Err(()) => self.spec_get_opt_str(key@) is Err,
            },
    {
        match self.get(key) {
            None => Ok(None),
            Some(JsonValue::Null) => Ok(None),
            Some(JsonValue::Str(s)) => Ok(Some(s.clone())),
            Some(_) => Err(()),
        }
    }

    /// The optional boolean under `key`: absent or null count as no value;
    /// any other non-boolean shape is an error.
    pub fn get_opt_bool(&self, key: &str) -> (r: Result<Option<bool>, ()>)
        ensures
            match r {
                Ok(b) => self.spec_get_opt_bool(key@) == Ok::<Option<bool>, ()>(b),
                Err(()) => self.spec_get_opt_bool(key@) is Err,
            },
    {
        match self.get(key) {
            None => Ok(None),
            Some(JsonValue::Null) => Ok(None),
            Some(JsonValue::Bool(b)) => Ok(Some(*b)),
            Some(_) => Err(()),
        }
    }

    /// The element list, if this value is an array.
    pub fn as_arr<'a>(&'a self) -> (r: Option<&'a Vec<JsonValue>>)
        ensures
            match *self {
                JsonValue::Arr(items) => r matches Some(v) && *v == items,
                _ => r is None,
            },
    {
        match self {
            JsonValue::Arr(items) => Some(items),
            _ => None,
        }
    }

    /// The entry list, if this value is an object.
    pub fn as_obj<'a>(&'a self) -> (r: Option<&'a Vec<(String, JsonValue)>>)
        ensures
            match *self {
                JsonValue::Obj(entries) => r matches Some(v) && *v == entries,
                _ => r is None,
            },
    {
        match self {
            JsonValue::Obj(entries) => Some(entries),
            _ => None,
        }
    }

    /// The characters, if this value is a string.
    pub fn as_str<'a>(&'a self) -> (r: Option<&'a String>)
        ensures
            match *self {
                JsonValue::Str(s) => r matches Some(v) && *v == s,
                _ => r is None,
            },
    {
        match self {
            JsonValue::Str(s) => Some(s),
            _ => None,
        }
    }
}

} // verus!
