//! A JSON document as the configuration reads it.

use crate::decimal::Decimal;
use crate::text::same;
use vstd::prelude::*;

verus! {

/// A number of a document: its value as an unsigned and as a signed whole
/// number of 64 bits, where it is one, and its value as a decimal of single
/// precision.
pub struct JsonNumber {
    pub unsigned: Option<u64>,
    pub signed: Option<i64>,
    pub real: Decimal,
}

/// A JSON value. The keys of an object are distinct.
pub enum Json {
    Null,
    Bool(bool),
    Number(JsonNumber),
    Text(String),
    Array(Vec<Json>),
    Object(Vec<(String, Json)>),
}

/// The position of the entry of `key` among the entries of an object, the
/// last of several; none if there is none.
pub open spec fn entry_of(entries: Seq<(String, Json)>, key: Seq<char>) -> Option<int>
    decreases entries.len(),
{
    if entries.len() == 0 {
        None
    } else if entries.last().0@ == key {
        Some(entries.len() - 1)
    } else {
        entry_of(entries.drop_last(), key)
    }
}

/// The member of `key` of an object, if `j` is an object that has it.
pub open spec fn member(j: Json, key: Seq<char>) -> Option<Json> {
    match j {
        Json::Object(entries) => match entry_of(entries@, key) {
            Some(i) => Some(entries@[i].1),
            None => None,
        },
        _ => None,
    }
}

/// The member of `key`, and `Null` where there is none.
pub open spec fn at(j: Json, key: Seq<char>) -> Json {
    match member(j, key) {
        Some(v) => v,
        None => Json::Null,
    }
}

/// The text of a value that is text.
pub open spec fn text_value(j: Json) -> Option<Seq<char>> {
    match j {
        Json::Text(s) => Some(s@),
        _ => None,
    }
}

/// The truth value of a value that is one.
pub open spec fn bool_value(j: Json) -> Option<bool> {
    match j {
        Json::Bool(b) => Some(b),
        _ => None,
    }
}

/// The value of a number that is a whole number of 64 bits without sign.
pub open spec fn unsigned_value(j: Json) -> Option<u64> {
    match j {
        Json::Number(n) => n.unsigned,
        _ => None,
    }
}

/// The value of a number that is a whole number of 64 bits with sign.
pub open spec fn signed_value(j: Json) -> Option<i64> {
    match j {
        Json::Number(n) => n.signed,
        _ => None,
    }
}

/// The decimal text of a number.
pub open spec fn real_value(j: Json) -> Option<Seq<char>> {
    match j {
        Json::Number(n) => Some(n.real@),
        _ => None,
    }
}

/// The elements of an array.
pub open spec fn elements(j: Json) -> Option<Seq<Json>> {
    match j {
        Json::Array(v) => Some(v@),
        _ => None,
    }
}

impl Json {
    /// The member of `key`, if this is an object that has it.
    pub fn get(&self, key: &str) -> (r: Option<&Json>)
        ensures
            match r {
                Some(v) => member(*self, key@) == Some(*v),
                None => member(*self, key@) is None,
            },
    {
        match self {
            Json::Object(entries) => {
                let mut i: usize = entries.len();
                assert(entries@.subrange(0, entries.len() as int) == entries@);
                while i > 0
                    invariant
                        i <= entries.len(),
                        *self == Json::Object(*entries),
                        entry_of(entries@, key@) == entry_of(entries@.subrange(0, i as int), key@),
                    decreases i,
                {
                    proof {
                        let head = entries@.subrange(0, i as int);
                        assert(head.last() == entries@[i - 1]);
                        assert(head.drop_last() == entries@.subrange(0, i - 1));
                    }
                    let chars = crate::text::chars_of(entries[i - 1].0.as_str());
                    if same(&chars, key) {
                        proof {
                            let head = entries@.subrange(0, i as int);
                            assert(head.last().0@ == key@);
                            assert(entry_of(head, key@) == Some(i - 1));
                        }
                        return Some(&entries[i - 1].1);
                    }
                    i -= 1;
                }
                None
            },
            _ => None,
        }
    }

    /// The text, if this is text.
    pub fn as_str(&self) -> (r: Option<&str>)
        ensures
            match r {
                Some(s) => text_value(*self) == Some(s@),
                None => text_value(*self) is None,
            },
    {
        match self {
            Json::Text(s) => Some(s.as_str()),
            _ => None,
        }
    }

    /// The truth value, if this is one.
    pub fn as_bool(&self) -> (r: Option<bool>)
        ensures
            r == bool_value(*self),
    {
        match self {
            Json::Bool(b) => Some(*b),
            _ => None,
        }
    }

    /// The number, if this is a whole number of 64 bits without sign.
    pub fn as_u64(&self) -> (r: Option<u64>)
        ensures
            r == unsigned_value(*self),
    {
        match self {
            Json::Number(n) => n.unsigned,
            _ => None,
        }
    }

    /// The number, if this is a whole number of 64 bits with sign.
    pub fn as_i64(&self) -> (r: Option<i64>)
        ensures
            r == signed_value(*self),
    {
        match self {
            Json::Number(n) => n.signed,
            _ => None,
        }
    }

    /// The number as a decimal, if this is a number.
    pub fn as_real(&self) -> (r: Option<Decimal>)
        ensures
            match r {
                Some(d) => real_value(*self) == Some(d@),
                None => real_value(*self) is None,
            },
    {
        match self {
            Json::Number(n) => Some(n.real.clone()),
            _ => None,
        }
    }

    /// The elements, if this is an array.
    pub fn as_array(&self) -> (r: Option<&Vec<Json>>)
        ensures
            match r {
                Some(v) => elements(*self) == Some(v@),
                None => elements(*self) is None,
            },
    {
        match self {
            Json::Array(v) => Some(v),
            _ => None,
        }
    }
}

} // verus!
