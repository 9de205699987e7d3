//! The feed's JSON documents, as plain values the parsers read.
//!
//! A document arrives from the network already decoded; what the parsers see
//! of it is this model. Objects keep their members in order, each key once.
use vstd::prelude::*;
use crate::text::same_text;

verus! {

/// A JSON number as the decoder holds it: a non-negative integer, a negative
/// integer, or a floating-point value given by its IEEE-754 bit pattern.
#[derive(Clone, Copy, Debug, PartialEq, Eq, Structural)]
pub enum JsonNumber {
    PosInt(u64),
    NegInt(i64),
    Float(u64),
}

/// A JSON value.
#[derive(Debug)]
pub enum JsonValue {
    Null,
    Bool(bool),
    Number(JsonNumber),
    String(String),
    Array(Vec<JsonValue>),
    Object(Vec<(String, JsonValue)>),
}

/// The value stored under `key` among the members `es` (the first member
/// with that key).
pub open spec fn entry_value(es: Seq<(String, JsonValue)>, key: Seq<char>) -> Option<JsonValue>
    decreases es.len(),
{
    if es.len() == 0 {
        None
    } else if es[0].0@ == key {
        Some(es[0].1)
    } else {
        entry_value(es.drop_first(), key)
    }
}

impl JsonValue {
    /// The member `key` of an object; nothing for any other value.
    pub open spec fn field(self, key: Seq<char>) -> Option<JsonValue> {
        match self {
            JsonValue::Object(es) => entry_value(es@, key),
            _ => None,
        }
    }

    /// The text of a string value.
    pub open spec fn text(self) -> Option<Seq<char>> {
        match self {
            JsonValue::String(s) => Some(s@),
            _ => None,
        }
    }

    /// The value of a number that is a non-negative integer.
    pub open spec fn unsigned(self) -> Option<u64> {
        match self {
            JsonValue::Number(JsonNumber::PosInt(n)) => Some(n),
            _ => None,
        }
    }

    /// The number, for a number value.
    pub open spec fn numeric(self) -> Option<JsonNumber> {
        match self {
            JsonValue::Number(n) => Some(n),
            _ => None,
        }
    }

    /// The truth value of a boolean.
    pub open spec fn flag(self) -> Option<bool> {
        match self {
            JsonValue::Bool(b) => Some(b),
            _ => None,
        }
    }

    /// The elements of an array.
    pub open spec fn items(self) -> Option<Seq<JsonValue>> {
        match self {
            JsonValue::Array(v) => Some(v@),
            _ => None,
        }
    }

    /// The members of an object.
    pub open spec fn members(self) -> Option<Seq<(String, JsonValue)>> {
        match self {
            JsonValue::Object(es) => Some(es@),
            _ => None,
        }
    }

    /// The member `key` of an object (what `Value::get` gives).
    pub fn get(&self, key: &str) -> (r: Option<&JsonValue>)
        ensures
            match r {
                Some(v) => self.field(key@) == Some(*v),
                None => self.field(key@) is None,
            },
    {
        match self {
            JsonValue::Object(es) => lookup(es, key),
            _ => None,
        }
    }

    /// The text of a string value (what `Value::as_str` gives).
    pub fn as_str(&self) -> (r: Option<&str>)
        ensures
            match r {
                Some(s) => self.text() == Some(s@),
                None => self.text() is None,
            },
    {
        match self {
            JsonValue::String(s) => Some(s.as_str()),
            _ => None,
        }
    }

    /// The value of a non-negative integer (what `Value::as_u64` gives).
    pub fn as_u64(&self) -> (r: Option<u64>)
        ensures
            r == self.unsigned(),
    {
        match self {
            JsonValue::Number(JsonNumber::PosInt(n)) => Some(*n),
            _ => None,
        }
    }

    /// The number of a number value; its floating-point reading is what
    /// `Value::as_f64` gives.
    pub fn as_number(&self) -> (r: Option<JsonNumber>)
        ensures
            r == self.numeric(),
    {
        match self {
            JsonValue::Number(n) => Some(*n),
            _ => None,
        }
    }

    /// The truth value of a boolean (what `Value::as_bool` gives).
    pub fn as_bool(&self) -> (r: Option<bool>)
        ensures
            r == self.flag(),
    {
        match self {
            JsonValue::Bool(b) => Some(*b),
            _ => None,
        }
    }

    /// The elements of an array (what `Value::as_array` gives).
    pub fn as_array(&self) -> (r: Option<&Vec<JsonValue>>)
        ensures
            match r {
                Some(v) => self.items() == Some(v@),
                None => self.items() is None,
            },
    {
        match self {
            JsonValue::Array(v) => Some(v),
            _ => None,
        }
    }

    /// The members of an object (what `Value::as_object` gives).
    pub fn as_object(&self) -> (r: Option<&Vec<(String, JsonValue)>>)
        ensures
            match r {
                Some(es) => self.members() == Some(es@),
                None => self.members() is None,
            },
    {
        match self {
            JsonValue::Object(es) => Some(es),
            _ => None,
        }
    }
}

/// The value of an optional reference.
pub open spec fn deref_value(o: Option<&JsonValue>) -> Option<JsonValue> {
    match o {
        Some(v) => Some(*v),
        None => None,
    }
}

/// The value stored under `key` among the members `es`.
pub fn lookup<'a>(es: &'a Vec<(String, JsonValue)>, key: &str) -> (r: Option<&'a JsonValue>)
    ensures
        deref_value(r) == entry_value(es@, key@),
{
    let n = es.len();
    assert(es@.skip(0) =~= es@);
    for i in 0..n
        invariant
            n == es.len(),
            entry_value(es@, key@) == entry_value(es@.skip(i as int), key@),
    {
        assert(es@.skip(i as int).drop_first() =~= es@.skip(i + 1));
        assert(es@.skip(i as int)[0] == es@[i as int]);
        if same_text(es[i].0.as_str(), key) {
            return Some(&es[i].1);
        }
    }
    None
}

/// The text of the member `key` of `v`.
pub open spec fn field_text(v: JsonValue, key: Seq<char>) -> Option<Seq<char>> {
    match v.field(key) {
        Some(x) => x.text(),
        None => None,
    }
}

/// The non-negative integer of the member `key` of `v`.
pub open spec fn field_unsigned(v: JsonValue, key: Seq<char>) -> Option<u64> {
    match v.field(key) {
        Some(x) => x.unsigned(),
        None => None,
    }
}

/// The number of the member `key` of `v`.
pub open spec fn field_numeric(v: JsonValue, key: Seq<char>) -> Option<JsonNumber> {
    match v.field(key) {
        Some(x) => x.numeric(),
        None => None,
    }
}

/// Whether the member `key` of `v` is the boolean `true`.
pub open spec fn field_true(v: JsonValue, key: Seq<char>) -> bool {
    match v.field(key) {
        Some(x) => x.flag() == Some(true),
        None => false,
    }
}

/// The elements of the array that is the member `key` of `v`.
pub open spec fn field_items(v: JsonValue, key: Seq<char>) -> Option<Seq<JsonValue>> {
    match v.field(key) {
        Some(x) => x.items(),
        None => None,
    }
}

/// `o`, or `d` when there is none.
pub open spec fn or_text(o: Option<Seq<char>>, d: Seq<char>) -> Seq<char> {
    match o {
        Some(t) => t,
        None => d,
    }
}

/// `o`, or zero when there is none.
pub open spec fn or_zero(o: Option<u64>) -> u64 {
    match o {
        Some(n) => n,
        None => 0,
    }
}

/// The text of the member `key` of `v`.
pub fn str_field<'a>(v: &'a JsonValue, key: &str) -> (r: Option<&'a str>)
    ensures
        match r {
            Some(t) => field_text(*v, key@) == Some(t@),
            None => field_text(*v, key@) is None,
        },
{
    match v.get(key) {
        Some(x) => x.as_str(),
        None => None,
    }
}

/// The text of the member `key` of `v`, or `default` when it has none.
pub fn str_field_or(v: &JsonValue, key: &str, default: &str) -> (r: String)
    ensures
        r@ == or_text(field_text(*v, key@), default@),
{
    match str_field(v, key) {
        Some(t) => t.to_owned(),
        None => default.to_owned(),
    }
}

/// The non-negative integer of the member `key` of `v`.
pub fn u64_field(v: &JsonValue, key: &str) -> (r: Option<u64>)
    ensures
        r == field_unsigned(*v, key@),
{
    match v.get(key) {
        Some(x) => x.as_u64(),
        None => None,
    }
}

/// The number of the member `key` of `v`.
pub fn number_field(v: &JsonValue, key: &str) -> (r: Option<JsonNumber>)
    ensures
        r == field_numeric(*v, key@),
{
    match v.get(key) {
        Some(x) => x.as_number(),
        None => None,
    }
}

/// Whether the member `key` of `v` is the boolean `true`.
pub fn true_field(v: &JsonValue, key: &str) -> (r: bool)
    ensures
        r == field_true(*v, key@),
{
    match v.get(key) {
        Some(x) => match x.as_bool() {
            Some(b) => b,
            None => false,
        },
        None => false,
    }
}

/// The elements of the array that is the member `key` of `v`.
pub fn array_field<'a>(v: &'a JsonValue, key: &str) -> (r: Option<&'a Vec<JsonValue>>)
    ensures
        match r {
            Some(a) => field_items(*v, key@) == Some(a@),
            None => field_items(*v, key@) is None,
        },
{
    match v.get(key) {
        Some(x) => x.as_array(),
        None => None,
    }
}

} // verus!
