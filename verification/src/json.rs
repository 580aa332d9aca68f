//! A JSON document as plain values, with the accessors of `serde_json::Value`, and the
//! parse of JSON text by `serde_json` into such a value.
use vstd::prelude::*;
use crate::text::str_eq;

verus! {

#[verifier::external_type_specification]
#[verifier::external_body]
pub struct ExSerdeJsonValue(serde_json::Value);

#[derive(Debug, PartialEq, Eq)]
pub enum JsonValue {
    Null,
    Bool(bool),
    /// A number, with its value when it is an integer that fits an `i64`.
    Number(Option<i64>),
    Str(String),
    Array(Vec<JsonValue>),
    /// An object's members in order; a key stands once.
    Object(Vec<(String, JsonValue)>),
}

/// `Value::get(key)` on an object: the value of the last member named `key`.
pub open spec fn member_index(members: Seq<(String, JsonValue)>, key: Seq<char>) -> int
    decreases members.len(),
{
    if members.len() == 0 {
        -1
    } else if members.last().0@ == key {
        members.len() - 1
    } else {
        member_index(members.drop_last(), key)
    }
}

pub proof fn lemma_member_index(members: Seq<(String, JsonValue)>, key: Seq<char>)
    ensures
        -1 <= member_index(members, key) < members.len(),
        member_index(members, key) >= 0 ==> members[member_index(members, key)].0@ == key,
        forall|j: int| member_index(members, key) < j < members.len() ==> members[j].0@ != key,
    decreases members.len(),
{
    if members.len() > 0 && members.last().0@ != key {
        lemma_member_index(members.drop_last(), key);
        assert forall|j: int| member_index(members, key) < j < members.len() implies members[j].0@
            != key by {
            if j < members.len() - 1 {
                assert(members[j] == members.drop_last()[j]);
            }
        }
    }
}

pub open spec fn get_spec(v: JsonValue, key: Seq<char>) -> Option<JsonValue> {
    match v {
        JsonValue::Object(members) => {
            let i = member_index(members@, key);
            if i >= 0 {
                Some(members@[i].1)
            } else {
                None
            }
        },
        _ => None,
    }
}

impl JsonValue {
    /// `Value::get` with a string key.
    pub fn get(&self, key: &str) -> (r: Option<&JsonValue>)
        ensures
            r matches Some(x) ==> get_spec(*self, key@) == Some(*x),
            r is None ==> get_spec(*self, key@) is None,
    {
        match self {
            JsonValue::Object(members) => {
                proof {
                    lemma_member_index(members@, key@);
                }
                let mut i = members.len();
                while i > 0
                    invariant
                        *self == JsonValue::Object(*members),
                        0 <= i <= members@.len(),
                        forall|j: int| i <= j < members@.len() ==> members@[j].0@ != key@,
                    decreases i,
                {
                    if str_eq(members[i - 1].0.as_str(), key) {
                        proof {
                            lemma_member_index(members@, key@);
                            let m = member_index(members@, key@);
                            if m > i - 1 {
                                assert(members@[m].0@ == key@);
                            }
                            if m < i - 1 {
                                assert(members@[i - 1].0@ == key@);
                            }
                        }
                        return Some(&members[i - 1].1);
                    }
                    i -= 1;
                }
                proof {
                    let m = member_index(members@, key@);
                    if m >= 0 {
                        assert(members@[m].0@ == key@);
                    }
                }
                None
            },
            _ => None,
        }
    }

    /// `Value::as_str`.
    pub fn as_str(&self) -> (r: Option<&String>)
        ensures
            r matches Some(s) ==> *self == JsonValue::Str(*s),
            r is None ==> !(*self is Str),
    {
        match self {
            JsonValue::Str(s) => Some(s),
            _ => None,
        }
    }

    /// `Value::as_bool`.
    pub fn as_bool(&self) -> (r: Option<bool>)
        ensures
            r == match *self {
                JsonValue::Bool(b) => Some(b),
                _ => None,
            },
    {
        match self {
            JsonValue::Bool(b) => Some(*b),
            _ => None,
        }
    }

    /// `Value::as_i64`.
    pub fn as_i64(&self) -> (r: Option<i64>)
        ensures
            r == match *self {
                JsonValue::Number(n) => n,
                _ => None,
            },
    {
        match self {
            JsonValue::Number(n) => *n,
            _ => None,
        }
    }

    /// `Value::as_array`.
    pub fn as_array(&self) -> (r: Option<&Vec<JsonValue>>)
        ensures
            r matches Some(a) ==> *self == JsonValue::Array(*a),
            r is None ==> !(*self is Array),
    {
        match self {
            JsonValue::Array(a) => Some(a),
            _ => None,
        }
    }

    /// `Value::is_null`.
    pub fn is_null(&self) -> (r: bool)
        ensures
            r == (*self is Null),
    {
        match self {
            JsonValue::Null => true,
            _ => false,
        }
    }
}


/// What `serde_json` makes of a text parsed as a `serde_json::Value`, each value taken over
/// variant by variant (a number kept as its `i64` when it is one, an object's members in the
/// order `serde_json` keeps them); `None` when the text is not JSON.
pub uninterp spec fn parsed_json(text: Seq<char>) -> Option<JsonValue>;

/// `serde_json::Value` as the library's value, variant by variant: a number by `as_i64`, an
/// array's items and an object's members in the order the value iterates them. This only
/// converts; the parse it serves is `parse_json`.
#[verifier::external_body]
fn from_serde(value: &serde_json::Value) -> JsonValue {
    match value {
        serde_json::Value::Null => JsonValue::Null,
        serde_json::Value::Bool(b) => JsonValue::Bool(*b),
        serde_json::Value::Number(n) => JsonValue::Number(n.as_i64()),
        serde_json::Value::String(s) => JsonValue::Str(s.clone()),
        serde_json::Value::Array(items) => JsonValue::Array(items.iter().map(from_serde).collect()),
        serde_json::Value::Object(members) => JsonValue::Object(
            members.iter().map(|(key, value)| (key.clone(), from_serde(value))).collect(),
        ),
    }
}

/// `serde_json::from_str::<serde_json::Value>`, converted to the library's value; `None` when
/// the text is not JSON. The result is named (`parsed_json`): it is JSON's grammar, which
/// depends on the text alone.
#[verifier::external_body]
pub(crate) fn parse_json(text: &str) -> (r: Option<JsonValue>)
    ensures
        r == parsed_json(text@),
{
    serde_json::from_str::<serde_json::Value>(text).ok().map(|value| from_serde(&value))
}

} // verus!
