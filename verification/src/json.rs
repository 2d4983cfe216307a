//! JSON documents as plain values, parsed with `serde_json`.

use vstd::prelude::*;

verus! {

/// A JSON number, as `serde_json` classifies it (the value of a float is not kept).
#[derive(Clone, Copy, Debug, PartialEq, Eq, Structural)]
pub enum JsonNumber {
    /// A non-negative integer.
    PosInt(u64),
    /// A negative integer.
    NegInt(i64),
    /// A number with a fraction or exponent.
    Float,
}

/// A JSON document.
#[derive(Debug)]
pub enum Json {
    /// `null`.
    Null,
    /// `true` / `false`.
    Bool(bool),
    /// A number.
    Number(JsonNumber),
    /// A string.
    String(String),
    /// An array.
    Array(Vec<Json>),
    /// An object: its members, each key once.
    Object(Vec<(String, Json)>),
}

/// What `serde_json::from_str::<Value>` gives for `text`, when it parses.
pub uninterp spec fn json_parse(text: Seq<char>) -> Option<Json>;

#[verifier::external_type_specification]
#[verifier::external_body]
pub struct ExJsonValue(serde_json::Value);

/// Parse JSON text through `serde_json::from_str`; the error is its message.
/// Trusted: the document is named by `json_parse`.
#[verifier::external_body]
pub(crate) fn parse_json(text: &str) -> (r: Result<Json, String>)
    ensures
        r is Ok <==> json_parse(text@) is Some,
        r matches Ok(j) ==> json_parse(text@) == Some(j),
{
    match serde_json::from_str::<serde_json::Value>(text) {
        Ok(v) => Ok(json_from_value(v)),
        Err(e) => Err(e.to_string()),
    }
}

/// The plain document of a `serde_json::Value`, member for member.
/// Trusted: a one-for-one conversion used by `parse_json`.
#[verifier::external_body]
fn json_from_value(v: serde_json::Value) -> Json {
    match v {
        serde_json::Value::Null => Json::Null,
        serde_json::Value::Bool(b) => Json::Bool(b),
        serde_json::Value::Number(n) => Json::Number(match (n.as_u64(), n.as_i64()) {
            (Some(u), _) => JsonNumber::PosInt(u),
            (None, Some(i)) => JsonNumber::NegInt(i),
            _ => JsonNumber::Float,
        }),
        serde_json::Value::String(s) => Json::String(s),
        serde_json::Value::Array(a) => Json::Array(a.into_iter().map(json_from_value).collect()),
        serde_json::Value::Object(m) => Json::Object(m.into_iter().map(|(k, x)| (k, json_from_value(x))).collect()),
    }
}

/// The first member of `members` named `key`.
pub open spec fn member(members: Seq<(String, Json)>, key: Seq<char>) -> Option<Json>
    decreases members.len(),
{
    if members.len() == 0 {
        None
    } else if members[0].0@ == key {
        Some(members[0].1)
    } else {
        member(members.drop_first(), key)
    }
}

/// `doc[key]` for an object, `None` otherwise (as `Value::get` with a string key).
pub open spec fn json_get(doc: Json, key: Seq<char>) -> Option<Json> {
    match doc {
        Json::Object(m) => member(m@, key),
        _ => None,
    }
}

/// The string of a string document (as `Value::as_str`).
pub open spec fn json_str(doc: Json) -> Option<Seq<char>> {
    match doc {
        Json::String(s) => Some(s@),
        _ => None,
    }
}

/// The value of a non-negative integer (as `Value::as_u64`).
pub open spec fn json_u64(doc: Json) -> Option<u64> {
    match doc {
        Json::Number(JsonNumber::PosInt(u)) => Some(u),
        _ => None,
    }
}

/// The value of an integer in the `i64` range (as `Value::as_i64`).
pub open spec fn json_i64(doc: Json) -> Option<i64> {
    match doc {
        Json::Number(JsonNumber::PosInt(u)) => if u <= i64::MAX {
            Some(u as i64)
        } else {
            None
        },
        Json::Number(JsonNumber::NegInt(i)) => Some(i),
        _ => None,
    }
}

impl Json {
    /// The member named `key` of an object.
    pub fn get(&self, key: &str) -> (r: Option<&Json>)
        ensures
            match r {
                Some(v) => json_get(*self, key@) == Some(*v),
                None => json_get(*self, key@) is None,
            },
    {
        match self {
            Json::Object(m) => {
                let wanted = key.to_owned();
                let mut i: usize = 0;
                assert(m@.subrange(0, m@.len() as int) =~= m@);
                while i < m.len()
                    invariant
                        i <= m@.len(),
                        wanted@ == key@,
                        json_get(*self, key@) == member(m@, key@),
                        member(m@, key@) == member(m@.subrange(i as int, m@.len() as int), key@),
                    decreases m@.len() - i,
                {
                    let ghost rest = m@.subrange(i as int, m@.len() as int);
                    assert(rest.drop_first() =~= m@.subrange(i + 1, m@.len() as int));
                    if m[i].0 == wanted {
                        assert(rest[0] == m@[i as int]);
                        assert(rest.len() > 0);
                        assert(rest[0].0@ == key@);
                        assert(member(rest, key@) == Some(rest[0].1));
                        return Some(&m[i].1);
                    }
                    i += 1;
                }
                None
            },
            _ => None,
        }
    }

    /// The string of a string document.
    pub fn as_str(&self) -> (r: Option<&str>)
        ensures
            match r {
                Some(s) => json_str(*self) == Some(s@),
                None => json_str(*self) is None,
            },
    {
        match self {
            Json::String(s) => Some(s.as_str()),
            _ => None,
        }
    }

    /// The value of a non-negative integer.
    pub fn as_u64(&self) -> (r: Option<u64>)
        ensures
            r == json_u64(*self),
    {
        match self {
            Json::Number(JsonNumber::PosInt(u)) => Some(*u),
            _ => None,
        }
    }

    /// The value of an integer in the `i64` range.
    pub fn as_i64(&self) -> (r: Option<i64>)
        ensures
            r == json_i64(*self),
    {
        match self {
            Json::Number(JsonNumber::PosInt(u)) => if *u <= i64::MAX as u64 {
                Some(*u as i64)
            } else {
                None
            },
            Json::Number(JsonNumber::NegInt(i)) => Some(*i),
            _ => None,
        }
    }

    /// The elements of an array.
    pub fn as_array(&self) -> (r: Option<&Vec<Json>>)
        ensures
            match r {
                Some(v) => *self == Json::Array(*v),
                None => !(*self is Array),
            },
    {
        match self {
            Json::Array(v) => Some(v),
            _ => None,
        }
    }
}

/// The string member `key` of an object.
pub open spec fn field_str(doc: Json, key: Seq<char>) -> Option<Seq<char>> {
    match json_get(doc, key) {
        Some(v) => json_str(v),
        None => None,
    }
}

/// The string member `key` of an object.
pub fn get_str<'a>(doc: &'a Json, key: &str) -> (r: Option<&'a str>)
    ensures
        match r {
            Some(s) => field_str(*doc, key@) == Some(s@),
            None => field_str(*doc, key@) is None,
        },
{
    match doc.get(key) {
        Some(v) => v.as_str(),
        None => None,
    }
}

/// The string field `key` of a one-field record as `serde` reads it from JSON: an object's
/// string member `key`, or an array of exactly one string.
pub open spec fn record_field(item: Json, key: Seq<char>) -> Option<Seq<char>> {
    match item {
        Json::Object(_) => field_str(item, key),
        Json::Array(v) => if v@.len() == 1 {
            json_str(v@[0])
        } else {
            None
        },
        _ => None,
    }
}

/// The string field `key` of a one-field record.
pub fn get_record_field<'a>(item: &'a Json, key: &str) -> (r: Option<&'a str>)
    ensures
        match r {
            Some(t) => record_field(*item, key@) == Some(t@),
            None => record_field(*item, key@) is None,
        },
{
    match item {
        Json::Object(_) => get_str(item, key),
        Json::Array(v) => if v.len() == 1 {
            v[0].as_str()
        } else {
            None
        },
        _ => None,
    }
}

} // verus!
