//! The JSON document model that the comparators walk: a tree of scalars,
//! arrays and objects whose entries keep the order the map yields them.

use vstd::prelude::*;

verus! {

/// A JSON number as the parser classifies it: non-negative integers,
/// negative integers, and other numbers by the shortest decimal text of
/// their `f64` value (negative zero written as zero).
pub enum JsonNumber {
    PosInt(u64),
    NegInt(i64),
    Float(String),
}

/// Equality of numbers: same classification, same value.
pub open spec fn number_eq(a: JsonNumber, b: JsonNumber) -> bool {
    match (a, b) {
        (JsonNumber::PosInt(x), JsonNumber::PosInt(y)) => x == y,
        (JsonNumber::NegInt(x), JsonNumber::NegInt(y)) => x == y,
        (JsonNumber::Float(x), JsonNumber::Float(y)) => x@ == y@,
        _ => false,
    }
}

/// Equality of numbers (see `number_eq`).
pub fn numbers_eq(a: &JsonNumber, b: &JsonNumber) -> (r: bool)
    ensures
        r == number_eq(*a, *b),
{
    match (a, b) {
        (JsonNumber::PosInt(x), JsonNumber::PosInt(y)) => *x == *y,
        (JsonNumber::NegInt(x), JsonNumber::NegInt(y)) => *x == *y,
        (JsonNumber::Float(x), JsonNumber::Float(y)) => crate::text::str_eq(x.as_str(), y.as_str()),
        _ => false,
    }
}

/// A JSON value.
pub enum JsonValue {
    Null,
    Bool(bool),
    Number(JsonNumber),
    String(String),
    Array(Vec<JsonValue>),
    Object(Vec<(String, JsonValue)>),
}

/// The index of the last entry of `e` whose key is `k`, or -1.
pub open spec fn key_index(e: Seq<(String, JsonValue)>, k: Seq<char>) -> int
    decreases e.len(),
{
    if e.len() == 0 {
        -1
    } else if e.last().0@ == k {
        e.len() - 1
    } else {
        key_index(e.drop_last(), k)
    }
}

/// Whether some entry of `e` has key `k`.
pub open spec fn has_key(e: Seq<(String, JsonValue)>, k: Seq<char>) -> bool {
    key_index(e, k) >= 0
}

/// The value a map lookup of `k` yields in `e`.
pub open spec fn entry_value(e: Seq<(String, JsonValue)>, k: Seq<char>) -> JsonValue {
    e[key_index(e, k)].1
}

pub proof fn lemma_key_index_range(e: Seq<(String, JsonValue)>, k: Seq<char>)
    ensures
        -1 <= key_index(e, k) < e.len(),
        key_index(e, k) >= 0 ==> e[key_index(e, k)].0@ == k,
    decreases e.len(),
{
    if e.len() > 0 && e.last().0@ != k {
        lemma_key_index_range(e.drop_last(), k);
    }
}

/// No object anywhere in the value repeats a key (so a value parsed from
/// text, whose maps keep one entry per key).
pub open spec fn keys_distinct(v: JsonValue) -> bool
    decreases v,
{
    match v {
        JsonValue::Object(o) => {
            &&& forall|i: int, j: int|
                0 <= i < j < o@.len() ==> (#[trigger] o@[i]).0@ != (#[trigger] o@[j]).0@
            &&& forall|i: int| 0 <= i < o@.len() ==> keys_distinct(#[trigger] o@[i].1)
        },
        JsonValue::Array(a) => forall|i: int| 0 <= i < a@.len() ==> keys_distinct(#[trigger] a@[i]),
        _ => true,
    }
}

/// In entries with distinct keys, the lookup of an entry's key finds that
/// entry.
pub proof fn lemma_key_index_distinct(e: Seq<(String, JsonValue)>, i: int)
    requires
        0 <= i < e.len(),
        forall|x: int, y: int| 0 <= x < y < e.len() ==> (#[trigger] e[x]).0@ != (#[trigger] e[y]).0@,
    ensures
        key_index(e, e[i].0@) == i,
    decreases e.len(),
{
    if i < e.len() - 1 {
        assert(e[i].0@ != e[e.len() - 1].0@);
        assert(e.drop_last()[i] == e[i]);
        lemma_key_index_distinct(e.drop_last(), i);
    }
}

/// The string a value holds, if it is a string.
pub open spec fn as_str(v: JsonValue) -> Option<Seq<char>> {
    match v {
        JsonValue::String(s) => Some(s@),
        _ => None,
    }
}

/// The value as an `i64`, when it is an integer in range.
pub open spec fn as_i64(v: JsonValue) -> Option<i64> {
    match v {
        JsonValue::Number(JsonNumber::PosInt(u)) => if u <= i64::MAX {
            Some(u as i64)
        } else {
            None
        },
        JsonValue::Number(JsonNumber::NegInt(i)) => Some(i),
        _ => None,
    }
}

/// The value as a `u64`, when it is a non-negative integer.
pub open spec fn as_u64(v: JsonValue) -> Option<u64> {
    match v {
        JsonValue::Number(JsonNumber::PosInt(u)) => Some(u),
        _ => None,
    }
}

/// Scalar equality: variants agree and so do their contents. Arrays and
/// objects compare equal to nothing here.
pub open spec fn scalar_eq(a: JsonValue, b: JsonValue) -> bool {
    match (a, b) {
        (JsonValue::Null, JsonValue::Null) => true,
        (JsonValue::Bool(x), JsonValue::Bool(y)) => x == y,
        (JsonValue::Number(x), JsonValue::Number(y)) => number_eq(x, y),
        (JsonValue::String(x), JsonValue::String(y)) => x@ == y@,
        _ => false,
    }
}

/// The index of the last entry of `e` whose key is `k`, if any.
pub fn find_key(e: &Vec<(String, JsonValue)>, k: &str) -> (r: Option<usize>)
    ensures
        match r {
            Some(i) => i as int == key_index(e@, k@) && i < e.len(),
            None => key_index(e@, k@) == -1,
        },
{
    let mut i: usize = e.len();
    assert(e@.subrange(0, i as int) =~= e@);
    while i > 0
        invariant
            i <= e.len(),
            key_index(e@, k@) == key_index(e@.subrange(0, i as int), k@),
        decreases i,
    {
        let entry_key = e[i - 1].0.as_str();
        if crate::text::str_eq(entry_key, k) {
            assert(e@.subrange(0, i as int).last().0@ == k@);
            return Some(i - 1);
        }
        assert(e@.subrange(0, i as int).drop_last() =~= e@.subrange(0, i - 1));
        i -= 1;
    }
    None
}

/// The value at key `k` of an object's entries, if present.
pub fn get<'a>(e: &'a Vec<(String, JsonValue)>, k: &str) -> (r: Option<&'a JsonValue>)
    ensures
        match r {
            Some(v) => has_key(e@, k@) && *v == entry_value(e@, k@),
            None => !has_key(e@, k@),
        },
{
    match find_key(e, k) {
        Some(i) => Some(&e[i].1),
        None => None,
    }
}

/// The string a value holds, if it is a string.
pub fn value_as_str(v: &JsonValue) -> (r: Option<&str>)
    ensures
        match r {
            Some(s) => as_str(*v) == Some(s@),
            None => as_str(*v) is None,
        },
{
    match v {
        JsonValue::String(s) => Some(s.as_str()),
        _ => None,
    }
}

/// The value as an `i64`, when it is an integer in range.
pub fn value_as_i64(v: &JsonValue) -> (r: Option<i64>)
    ensures
        r == as_i64(*v),
{
    match v {
        JsonValue::Number(JsonNumber::PosInt(u)) => if *u <= 9223372036854775807u64 {
            Some(*u as i64)
        } else {
            None
        },
        JsonValue::Number(JsonNumber::NegInt(i)) => Some(*i),
        _ => None,
    }
}

/// The value as a `u64`, when it is a non-negative integer.
pub fn value_as_u64(v: &JsonValue) -> (r: Option<u64>)
    ensures
        r == as_u64(*v),
{
    match v {
        JsonValue::Number(JsonNumber::PosInt(u)) => Some(*u),
        _ => None,
    }
}

/// Scalar equality of two values (see `scalar_eq`).
pub fn values_scalar_eq(a: &JsonValue, b: &JsonValue) -> (r: bool)
    ensures
        r == scalar_eq(*a, *b),
{
    match (a, b) {
        (JsonValue::Null, JsonValue::Null) => true,
        (JsonValue::Bool(x), JsonValue::Bool(y)) => *x == *y,
        (JsonValue::Number(x), JsonValue::Number(y)) => numbers_eq(x, y),
        (JsonValue::String(x), JsonValue::String(y)) => crate::text::str_eq(x.as_str(), y.as_str()),
        _ => false,
    }
}

} // verus!
