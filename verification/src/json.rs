//! A JSON document as the bundle reader sees it.
//!
//! Objects keep every member in document order, repeated keys included, so
//! that the reader can refuse a field given twice. Numbers keep the form the
//! JSON text gave them: a non-negative integer that fits `u64`, a negative
//! integer that fits `i64`, or anything else (a fraction, an exponent, an
//! integer out of range), which no proto3 scalar accepts.
use vstd::prelude::*;

verus! {

broadcast use vstd::string::group_string_axioms;

/// A JSON number, by the form its text has.
pub enum JsonNumber {
    /// A non-negative integer that fits in `u64`.
    Unsigned(u64),
    /// A negative integer that fits in `i64`.
    Negative(i64),
    /// Any other number: one with a fraction or an exponent, or an integer
    /// out of the range of both integer forms.
    Fractional,
}

/// A JSON value.
pub enum JsonValue {
    Null,
    Bool(bool),
    Number(JsonNumber),
    String(String),
    Array(Vec<JsonValue>),
    /// The members of an object in document order, repeated keys included.
    Object(Vec<(String, JsonValue)>),
}

/// The `i`-th member value of an array or an object.
pub open spec fn member_value(v: JsonValue, i: int) -> JsonValue {
    match v {
        JsonValue::Array(items) => items@[i],
        JsonValue::Object(members) => members@[i].1,
        _ => JsonValue::Null,
    }
}

/// Whether two strings hold the same characters.
pub fn str_equal(a: &str, b: &str) -> (equal: bool)
    ensures
        equal == (a@ == b@),
{
    a.to_owned() == b.to_owned()
}

/// The characters of a string, in order.
pub fn chars_of(s: &str) -> (chars: Vec<char>)
    ensures
        chars@ == s@,
{
    let mut chars: Vec<char> = Vec::new();
    let mut it = s.chars();
    loop
        invariant
            vstd::std_specs::iter::IteratorSpec::obeys_prophetic_iter_laws(&it),
            chars@ + vstd::std_specs::iter::IteratorSpec::remaining(&it) == s@,
            vstd::std_specs::iter::IteratorSpec::decrease(&it) is Some,
        decreases vstd::std_specs::iter::IteratorSpec::decrease(&it)->0,
    {
        let ghost before = vstd::std_specs::iter::IteratorSpec::remaining(&it);
        match it.next() {
            Some(c) => {
                chars.push(c);
                assert(chars@ + vstd::std_specs::iter::IteratorSpec::remaining(&it) =~= s@) by {
                    assert(before =~= seq![c] + vstd::std_specs::iter::IteratorSpec::remaining(&it));
                }
            },
            None => {
                assert(chars@ =~= s@);
                return chars;
            },
        }
    }
}

} // verus!
