//! A JSON value as the search engine's answers carry it, and the accessors
//! through which those answers are read. Numbers keep the three shapes that
//! JSON readers give them: non-negative integers, negative integers, and
//! everything else, kept as its decimal text.
use vstd::prelude::*;

verus! {

#[derive(Debug, PartialEq, Eq)]
pub enum JsonNumber {
    PosInt(u64),
    NegInt(i64),
    Float(String),
}

#[derive(Debug, PartialEq, Eq)]
pub enum Json {
    Null,
    Bool(bool),
    Number(JsonNumber),
    Str(String),
    Array(Vec<Json>),
    Object(Vec<(String, Json)>),
}

impl Clone for JsonNumber {
    fn clone(&self) -> (r: Self)
        ensures
            r == *self,
    {
        match self {
            JsonNumber::PosInt(n) => JsonNumber::PosInt(*n),
            JsonNumber::NegInt(n) => JsonNumber::NegInt(*n),
            JsonNumber::Float(s) => JsonNumber::Float(s.clone()),
        }
    }
}

/// The value of the first member named `key`, if any.
pub open spec fn member_of(members: Seq<(String, Json)>, key: Seq<char>) -> Option<Json>
    decreases members.len(),
{
    if members.len() == 0 {
        None
    } else if members[0].0@ == key {
        Some(members[0].1)
    } else {
        member_of(members.drop_first(), key)
    }
}

/// The member `key` of an object; nothing for any other value.
pub open spec fn json_get(v: Json, key: Seq<char>) -> Option<Json> {
    match v {
        Json::Object(members) => member_of(members@, key),
        _ => None,
    }
}

/// `json_get` through an optional value.
pub open spec fn json_get_opt(v: Option<Json>, key: Seq<char>) -> Option<Json> {
    match v {
        Some(x) => json_get(x, key),
        None => None,
    }
}

/// Element `i` of an array; nothing for any other value.
pub open spec fn json_at(v: Json, i: int) -> Option<Json> {
    match v {
        Json::Array(items) => if 0 <= i < items@.len() {
            Some(items@[i])
        } else {
            None
        },
        _ => None,
    }
}

/// The value as an unsigned integer, where it is a non-negative integer.
pub open spec fn json_u64(v: Json) -> Option<u64> {
    match v {
        Json::Number(JsonNumber::PosInt(n)) => Some(n),
        _ => None,
    }
}

/// The value as a signed integer, where it is an integer that fits.
pub open spec fn json_i64(v: Json) -> Option<i64> {
    match v {
        Json::Number(JsonNumber::PosInt(n)) => if n <= i64::MAX {
            Some(n as i64)
        } else {
            None
        },
        Json::Number(JsonNumber::NegInt(n)) => Some(n),
        _ => None,
    }
}

/// The text of a string value.
pub open spec fn json_str(v: Json) -> Option<Seq<char>> {
    match v {
        Json::Str(s) => Some(s@),
        _ => None,
    }
}

/// The number held by a number value.
pub open spec fn json_number(v: Json) -> Option<JsonNumber> {
    match v {
        Json::Number(n) => Some(n),
        _ => None,
    }
}

/// The elements of an array value.
pub open spec fn json_array(v: Json) -> Option<Seq<Json>> {
    match v {
        Json::Array(items) => Some(items@),
        _ => None,
    }
}

/// The value that an optional reference points to.
pub open spec fn deref_opt<T>(r: Option<&T>) -> Option<T> {
    match r {
        Some(v) => Some(*v),
        None => None,
    }
}

/// The member `key` of an optional object.
pub fn get_in<'a>(v: Option<&'a Json>, key: &str) -> (r: Option<&'a Json>)
    ensures
        deref_opt(r) == json_get_opt(deref_opt(v), key@),
{
    match v {
        Some(x) => x.get(key),
        None => None,
    }
}

impl Json {
    /// The member `key` of an object.
    pub fn get(&self, key: &str) -> (r: Option<&Json>)
        ensures
            deref_opt(r) == json_get(*self, key@),
    {
        match self {
            Json::Object(members) => {
                let mut i: usize = 0;
                assert(json_get(*self, key@) == member_of(members@, key@));
                assert(members@.subrange(0, members.len() as int) =~= members@);
                while i < members.len()
                    invariant
                        i <= members.len(),
                        json_get(*self, key@) == member_of(members@, key@),
                        member_of(members@, key@) == member_of(
                            members@.subrange(i as int, members.len() as int),
                            key@,
                        ),
                    decreases members.len() - i,
                {
                    let ghost rest = members@.subrange(i as int, members.len() as int);
                    assert(rest.drop_first() =~= members@.subrange(i + 1, members.len() as int));
                    assert(rest[0] == members@[i as int]);
                    if crate::text::same_text(members[i].0.as_str(), key) {
                        assert(member_of(rest, key@) == Some(members@[i as int].1));
                        return Some(&members[i].1);
                    }
                    i = i + 1;
                }
                None
            },
            _ => None,
        }
    }

    /// Element `i` of an array.
    pub fn at(&self, i: usize) -> (r: Option<&Json>)
        ensures
            deref_opt(r) == json_at(*self, i as int),
    {
        match self {
            Json::Array(items) => if i < items.len() {
                Some(&items[i])
            } else {
                None
            },
            _ => None,
        }
    }

    pub fn as_u64(&self) -> (r: Option<u64>)
        ensures
            r == json_u64(*self),
    {
        match self {
            Json::Number(JsonNumber::PosInt(n)) => Some(*n),
            _ => None,
        }
    }

    pub fn as_i64(&self) -> (r: Option<i64>)
        ensures
            r == json_i64(*self),
    {
        match self {
            Json::Number(JsonNumber::PosInt(n)) => if *n <= i64::MAX as u64 {
                Some(*n as i64)
            } else {
                None
            },
            Json::Number(JsonNumber::NegInt(n)) => Some(*n),
            _ => None,
        }
    }

    pub fn as_str(&self) -> (r: Option<&str>)
        ensures
            match r {
                Some(s) => json_str(*self) == Some(s@),
                None => json_str(*self) is None,
            },
    {
        match self {
            Json::Str(s) => Some(s.as_str()),
            _ => None,
        }
    }

    pub fn as_array(&self) -> (r: Option<&Vec<Json>>)
        ensures
            match r {
                Some(items) => json_array(*self) == Some(items@),
                None => json_array(*self) is None,
            },
    {
        match self {
            Json::Array(items) => Some(items),
            _ => None,
        }
    }

    pub fn as_number(&self) -> (r: Option<&JsonNumber>)
        ensures
            deref_opt(r) == json_number(*self),
    {
        match self {
            Json::Number(n) => Some(n),
            _ => None,
        }
    }

    /// The member `key` of an object, moved out of it.
    pub fn take_member(self, key: &str) -> (r: Option<Json>)
        ensures
            r == json_get(self, key@),
    {
        match self {
            Json::Object(mut members) => {
                let ghost all = members@;
                assert(json_get(self, key@) == member_of(all, key@));
                let mut i: usize = 0;
                assert(all.subrange(0, all.len() as int) =~= all);
                while i < members.len()
                    invariant
                        members@ == all,
                        json_get(self, key@) == member_of(all, key@),
                        i <= members.len(),
                        member_of(all, key@) == member_of(all.subrange(i as int, all.len() as int), key@),
                    decreases members.len() - i,
                {
                    let ghost rest = all.subrange(i as int, all.len() as int);
                    assert(rest.drop_first() =~= all.subrange(i + 1, all.len() as int));
                    assert(rest[0] == all[i as int]);
                    if crate::text::same_text(members[i].0.as_str(), key) {
                        assert(member_of(rest, key@) == Some(all[i as int].1));
                        let (_, value) = members.remove(i);
                        return Some(value);
                    }
                    i = i + 1;
                }
                None
            },
            _ => None,
        }
    }
}

} // verus!
