//! JSON values as the library reads them: the payloads and event details
//! that history events carry.

use vstd::prelude::*;
use crate::text::{chars_eq, chars_of};
use serde_json::{Number, Value};

verus! {

/// A JSON number: a non-negative integer, a negative integer, or another
/// number kept as its text.
#[derive(Debug, Clone, PartialEq)]
pub enum JsonNumber {
    PosInt(u64),
    NegInt(i64),
    Float(String),
}

/// A JSON value. Object members keep their order.
#[derive(Debug)]
pub enum JsonValue {
    Null,
    Bool(bool),
    Number(JsonNumber),
    String(String),
    Array(Vec<JsonValue>),
    Object(Vec<(String, JsonValue)>),
}

/// The value of the first member named `key` among `members`.
pub open spec fn member_value(members: Seq<(String, JsonValue)>, key: Seq<char>) -> Option<JsonValue>
    decreases members.len(),
{
    if members.len() == 0 {
        None
    } else if members[0].0@ == key {
        Some(members[0].1)
    } else {
        member_value(members.drop_first(), key)
    }
}

/// The member `key` of an object; `None` for other values.
pub open spec fn json_get(v: JsonValue, key: Seq<char>) -> Option<JsonValue> {
    match v {
        JsonValue::Object(m) => member_value(m@, key),
        _ => None,
    }
}

/// The text of a string value.
pub open spec fn json_str(v: Option<JsonValue>) -> Option<Seq<char>> {
    match v {
        Some(JsonValue::String(s)) => Some(s@),
        _ => None,
    }
}

/// The value of an integer that fits an `i64`.
pub open spec fn json_i64(v: Option<JsonValue>) -> Option<i64> {
    match v {
        Some(JsonValue::Number(JsonNumber::PosInt(n))) => if n <= i64::MAX {
            Some(n as i64)
        } else {
            None
        },
        Some(JsonValue::Number(JsonNumber::NegInt(n))) => Some(n),
        _ => None,
    }
}

/// The value of a non-negative integer.
pub open spec fn json_u64(v: Option<JsonValue>) -> Option<u64> {
    match v {
        Some(JsonValue::Number(JsonNumber::PosInt(n))) => Some(n),
        _ => None,
    }
}

impl JsonValue {
    /// The member named `key`, when this is an object that has one.
    pub fn get(&self, key: &str) -> (r: Option<&JsonValue>)
        ensures
            match r {
                Some(x) => json_get(*self, key@) == Some(*x),
                None => json_get(*self, key@) is None,
            },
    {
        match self {
            JsonValue::Object(members) => {
                let k = chars_of(key);
                let mut i: usize = 0;
                assert(members@.skip(0) =~= members@);
                while i < members.len()
                    invariant
                        *self == JsonValue::Object(*members),
                        i <= members@.len(),
                        k@ == key@,
                        member_value(members@, key@) == member_value(members@.skip(i as int), key@),
                    decreases members.len() - i,
                {
                    let name = chars_of(members[i].0.as_str());
                    assert(members@.skip(i as int).drop_first() =~= members@.skip(i + 1));
                    if chars_eq(&name, &k) {
                        assert(members@.skip(i as int)[0] == members@[i as int]);
                        assert(member_value(members@.skip(i as int), key@) == Some(members@[i as int].1));
                        return Some(&members[i].1);
                    }
                    i = i + 1;
                }
                assert(members@.skip(i as int).len() == 0);
                None
            },
            _ => None,
        }
    }

    /// The text of a string value.
    pub fn as_str(&self) -> (r: Option<&str>)
        ensures
            match r {
                Some(s) => json_str(Some(*self)) == Some(s@),
                None => json_str(Some(*self)) is None,
            },
    {
        match self {
            JsonValue::String(s) => Some(s.as_str()),
            _ => None,
        }
    }

    /// The value of an integer that fits an `i64`.
    pub fn as_i64(&self) -> (r: Option<i64>)
        ensures
            r == json_i64(Some(*self)),
    {
        match self {
            JsonValue::Number(JsonNumber::PosInt(n)) => if *n <= 9223372036854775807u64 {
                Some(*n as i64)
            } else {
                None
            },
            JsonValue::Number(JsonNumber::NegInt(n)) => Some(*n),
            _ => None,
        }
    }

    /// The value of a non-negative integer.
    pub fn as_u64(&self) -> (r: Option<u64>)
        ensures
            r == json_u64(Some(*self)),
    {
        match self {
            JsonValue::Number(JsonNumber::PosInt(n)) => Some(*n),
            _ => None,
        }
    }
}

/// The text of member `key` of `v`, when it is a string.
pub fn get_str(v: &JsonValue, key: &str) -> (r: Option<String>)
    ensures
        match r {
            Some(s) => json_str(json_get(*v, key@)) == Some(s@),
            None => json_str(json_get(*v, key@)) is None,
        },
{
    match v.get(key) {
        Some(x) => match x.as_str() {
            Some(s) => Some(s.to_owned()),
            None => None,
        },
        None => None,
    }
}

/// The value of member `key` of `v`, when it is an integer that fits `i64`.
pub fn get_i64(v: &JsonValue, key: &str) -> (r: Option<i64>)
    ensures
        r == json_i64(json_get(*v, key@)),
{
    match v.get(key) {
        Some(x) => x.as_i64(),
        None => None,
    }
}

/// A copy of member `key` of `v`.
pub fn get_cloned(v: &JsonValue, key: &str) -> (r: Option<JsonValue>)
    ensures
        same_json_opt(r, json_get(*v, key@)),
{
    match v.get(key) {
        Some(x) => Some(clone_json(x)),
        None => None,
    }
}

/// `a` and `b` hold the same JSON data.
pub open spec fn same_json(a: JsonValue, b: JsonValue) -> bool
    decreases a,
{
    match a {
        JsonValue::Array(x) => match b {
            JsonValue::Array(y) => x.len() == y.len() && forall|i: int|
                0 <= i < x.len() ==> #[trigger] same_json(x[i], y[i]),
            _ => false,
        },
        JsonValue::Object(x) => match b {
            JsonValue::Object(y) => x.len() == y.len() && forall|i: int|
                0 <= i < x.len() ==> x[i].0@ == y[i].0@ && #[trigger] same_json(x[i].1, y[i].1),
            _ => false,
        },
        JsonValue::Number(JsonNumber::Float(s)) => match b {
            JsonValue::Number(JsonNumber::Float(t)) => s@ == t@,
            _ => false,
        },
        JsonValue::String(s) => match b {
            JsonValue::String(t) => s@ == t@,
            _ => false,
        },
        _ => a == b,
    }
}

/// Both absent, or both present with the same JSON data.
pub open spec fn same_json_opt(a: Option<JsonValue>, b: Option<JsonValue>) -> bool {
    match (a, b) {
        (Some(x), Some(y)) => same_json(x, y),
        (None, None) => true,
        _ => false,
    }
}

/// A deep copy of a JSON value.
pub fn clone_json(v: &JsonValue) -> (r: JsonValue)
    ensures
        same_json(r, *v),
    decreases v,
{
    match v {
        JsonValue::Null => JsonValue::Null,
        JsonValue::Bool(b) => JsonValue::Bool(*b),
        JsonValue::Number(JsonNumber::PosInt(n)) => JsonValue::Number(JsonNumber::PosInt(*n)),
        JsonValue::Number(JsonNumber::NegInt(n)) => JsonValue::Number(JsonNumber::NegInt(*n)),
        JsonValue::Number(JsonNumber::Float(s)) => JsonValue::Number(JsonNumber::Float(s.clone())),
        JsonValue::String(s) => JsonValue::String(s.clone()),
        JsonValue::Array(items) => {
            let mut out: Vec<JsonValue> = Vec::new();
            let mut i: usize = 0;
            while i < items.len()
                invariant
                    *v == JsonValue::Array(*items),
                    i <= items@.len(),
                    out@.len() == i,
                    forall|k: int| 0 <= k < i ==> same_json(#[trigger] out@[k], items@[k]),
                decreases items.len() - i,
            {
                proof {
                    broadcast use vstd::std_specs::vec::axiom_vec_index_decreases;
                    assert(decreases_to!(*v => (*v)->Array_0));
                    assert(decreases_to!(*items => items[i as int]));
                    assert(decreases_to!(*v => items[i as int]));
                }
                let c = clone_json(&items[i]);
                out.push(c);
                i = i + 1;
            }
            let r = JsonValue::Array(out);
            assert(same_json(r, *v));
            r
        },
        JsonValue::Object(members) => {
            let mut out: Vec<(String, JsonValue)> = Vec::new();
            let mut i: usize = 0;
            while i < members.len()
                invariant
                    *v == JsonValue::Object(*members),
                    i <= members@.len(),
                    out@.len() == i,
                    forall|k: int| 0 <= k < i ==> (#[trigger] out@[k]).0@ == members@[k].0@,
                    forall|k: int| 0 <= k < i ==> same_json(#[trigger] out@[k].1, members@[k].1),
                decreases members.len() - i,
            {
                proof {
                    broadcast use vstd::std_specs::vec::axiom_vec_index_decreases;
                    assert(decreases_to!(*v => (*v)->Object_0));
                    assert(decreases_to!(*members => members[i as int]));
                    assert(decreases_to!(members[i as int] => members[i as int].1));
                    assert(decreases_to!(*v => members[i as int].1));
                }
                let c = clone_json(&members[i].1);
                let name = members[i].0.clone();
                let ghost before = out@;
                out.push((name, c));
                assert forall|k: int| 0 <= k < i + 1 implies same_json(#[trigger] out@[k].1, members@[k].1) by {
                    if k < i {
                        assert(out@[k] == before[k]);
                        assert(same_json(before[k].1, members@[k].1));
                    }
                }
                assert forall|k: int| 0 <= k < i + 1 implies (#[trigger] out@[k]).0@ == members@[k].0@ by {
                    if k < i {
                        assert(out@[k] == before[k]);
                    }
                }
                i = i + 1;
            }
            let r = JsonValue::Object(out);
            assert forall|k: int| 0 <= k < out@.len() implies out@[k].0@ == members@[k].0@
                && #[trigger] same_json(out@[k].1, members@[k].1) by {
                assert(out@[k].0@ == members@[k].0@);
                assert(same_json(out@[k].1, members@[k].1));
            }
            assert(same_json(r, *v));
            r
        },
    }
}

/// `serde_json::Value`, the JSON value type of the `serde_json` crate.
#[verifier::external_type_specification]
#[verifier::external_body]
pub struct ExSerdeValue(serde_json::Value);

/// `serde_json::Number`, the JSON number type of the `serde_json` crate.
#[verifier::external_type_specification]
#[verifier::external_body]
pub struct ExSerdeNumber(serde_json::Number);

/// The compact JSON text of a value: what `serde_json::Value` displays.
pub uninterp spec fn json_text_of(v: JsonValue) -> Seq<char>;

/// The value as a `serde_json::Value`, member for member; a number kept as
/// text becomes the number that text denotes (null if it denotes none).
#[verifier::external_body]
fn serde_value(v: &JsonValue) -> Value {
    match v {
        JsonValue::Null => Value::Null,
        JsonValue::Bool(b) => Value::Bool(*b),
        JsonValue::Number(JsonNumber::PosInt(n)) => Value::from(*n),
        JsonValue::Number(JsonNumber::NegInt(n)) => Value::from(*n),
        JsonValue::Number(JsonNumber::Float(t)) => t.parse::<Number>().map_or(Value::Null, Value::Number),
        JsonValue::String(t) => Value::String(t.clone()),
        JsonValue::Array(a) => Value::Array(a.iter().map(serde_value).collect()),
        JsonValue::Object(m) => Value::Object(m.iter().map(|(k, x)| (k.clone(), serde_value(x))).collect()),
    }
}

/// The compact JSON text of a value, as `serde_json::Value`'s `to_string`
/// writes it. Its contract names the result and says no more of it.
#[verifier::external_body]
pub(crate) fn json_text(v: &JsonValue) -> (r: String)
    ensures
        r@ == json_text_of(*v),
{
    serde_value(v).to_string()
}

/// The indented JSON text of a value: what `serde_json::to_string_pretty`
/// writes for it.
pub uninterp spec fn json_pretty_text_of(v: JsonValue) -> Seq<char>;

/// The indented JSON text of a value, as `serde_json::to_string_pretty`
/// writes it (two spaces per level); should that call fail, the compact
/// text. Its contract names the result and says no more of it.
#[verifier::external_body]
pub(crate) fn json_pretty(v: &JsonValue) -> (r: String)
    ensures
        r@ == json_pretty_text_of(*v),
{
    let value = serde_value(v);
    match serde_json::to_string_pretty(&value) {
        Ok(t) => t,
        Err(_) => value.to_string(),
    }
}

/// What `serde_json::from_str::<serde_json::Value>` makes of a text: the
/// value read (member order as serde_json keeps it), or the text of the
/// error it reports.
pub uninterp spec fn json_read(s: Seq<char>) -> Result<JsonValue, Seq<char>>;

/// A `serde_json::Number` as a `JsonNumber`: an integer that fits a `u64`,
/// else one that fits an `i64`, else the number's text.
#[verifier::external_body]
fn from_serde_number(n: &Number) -> JsonNumber {
    match (n.as_u64(), n.as_i64()) {
        (Some(u), _) => JsonNumber::PosInt(u),
        (None, Some(i)) => JsonNumber::NegInt(i),
        (None, None) => JsonNumber::Float(n.to_string()),
    }
}

/// A `serde_json::Value` as a `JsonValue`, member for member.
#[verifier::external_body]
fn from_serde(v: &Value) -> JsonValue {
    match v {
        Value::Null => JsonValue::Null,
        Value::Bool(b) => JsonValue::Bool(*b),
        Value::Number(n) => JsonValue::Number(from_serde_number(n)),
        Value::String(t) => JsonValue::String(t.clone()),
        Value::Array(a) => JsonValue::Array(a.iter().map(from_serde).collect()),
        Value::Object(m) => JsonValue::Object(m.iter().map(|(k, x)| (k.clone(), from_serde(x))).collect()),
    }
}

/// Calls `serde_json::from_str::<serde_json::Value>` and hands back the
/// value read, or the error's display text. The contract names the result
/// and says no more of it.
#[verifier::external_body]
pub(crate) fn parse_json(s: &str) -> (r: Result<JsonValue, String>)
    ensures
        match r {
            Ok(v) => json_read(s@) == Ok::<JsonValue, Seq<char>>(v),
            Err(e) => json_read(s@) == Err::<JsonValue, Seq<char>>(e@),
        },
{
    match serde_json::from_str::<Value>(s) {
        Ok(v) => Ok(from_serde(&v)),
        Err(e) => Err(e.to_string()),
    }
}

/// A member value found by name is one of the members' values.
pub proof fn lemma_member_value_in(m: Seq<(String, JsonValue)>, key: Seq<char>)
    ensures
        member_value(m, key) matches Some(x) ==> exists|i: int| 0 <= i < m.len() && m[i].1 == x,
    decreases m.len(),
{
    if m.len() > 0 && m[0].0@ != key {
        lemma_member_value_in(m.drop_first(), key);
        if let Some(x) = member_value(m, key) {
            let i = choose|i: int| 0 <= i < m.drop_first().len() && m.drop_first()[i].1 == x;
            assert(m[i + 1].1 == x);
        }
    }
}

/// A member of an object is smaller than the object.
pub proof fn lemma_get_decreases(v: JsonValue, key: Seq<char>)
    requires
        json_get(v, key) is Some,
    ensures
        decreases_to!(v => json_get(v, key)->0),
{
    broadcast use vstd::std_specs::vec::axiom_vec_index_decreases;
    if let JsonValue::Object(m) = v {
        lemma_member_value_in(m@, key);
        let x = json_get(v, key)->0;
        let i = choose|i: int| 0 <= i < m@.len() && m@[i].1 == x;
        assert(decreases_to!(v => v->Object_0));
        assert(decreases_to!(m => m[i]));
        assert(decreases_to!(m[i] => m[i].1));
        assert(decreases_to!(v => m[i].1));
    }
}

} // verus!
