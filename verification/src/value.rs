//! The payload document model: a recursive JSON-like value and the
//! key-lookup primitive used by the path resolver.

use vstd::prelude::*;

verus! {

/// One payload value: null, boolean, number, string, ordered array of
/// values, or an ordered mapping of string keys to values.
///
/// Numbers carry a caller-chosen integer encoding (for example a
/// fixed-point representation of decimals); all numeric predicates compare
/// in that encoding, so the ordering of encoded numbers must agree with the
/// ordering the caller intends.
pub enum Value {
    Null,
    Bool(bool),
    Number(i64),
    Text(String),
    Array(Vec<Value>),
    Object(Vec<(String, Value)>),
}

/// A payload document: the top-level ordered mapping of field names to
/// values for one point.
pub struct Payload {
    pub fields: Vec<(String, Value)>,
}

/// The value bound to `key` in an ordered field list: the first pair whose
/// key equals `key`, if any.
pub open spec fn lookup_fields(fields: Seq<(String, Value)>, key: Seq<char>) -> Option<Value>
    decreases fields.len(),
{
    if fields.len() == 0 {
        None::<Value>
    } else if fields[0].0@ == key {
        Some(fields[0].1)
    } else {
        lookup_fields(fields.drop_first(), key)
    }
}

/// The value bound to `key` inside `v`, defined only when `v` is an object.
pub open spec fn lookup_value(v: Value, key: Seq<char>) -> Option<Value> {
    match v {
        Value::Object(fields) => lookup_fields(fields@, key),
        _ => None,
    }
}

proof fn lemma_lookup_fields_skip(fields: Seq<(String, Value)>, key: Seq<char>, i: int)
    requires
        0 <= i <= fields.len(),
        forall|j: int| 0 <= j < i ==> fields[j].0@ != key,
    ensures
        lookup_fields(fields, key) == lookup_fields(fields.skip(i), key),
    decreases i,
{
    if i > 0 {
        assert(fields.skip(1) =~= fields.drop_first());
        lemma_lookup_fields_skip(fields.drop_first(), key, i - 1);
        assert(fields.drop_first().skip(i - 1) =~= fields.skip(i));
    } else {
        assert(fields.skip(0) =~= fields);
    }
}

/// Finds the first field named `key` in an ordered field list.
pub fn get_field<'a>(fields: &'a Vec<(String, Value)>, key: &String) -> (r: Option<&'a Value>)
    ensures
        match r {
            Some(v) => lookup_fields(fields@, key@) == Some(*v),
            None => lookup_fields(fields@, key@) is None,
        },
{
    let n = fields.len();
    let mut i: usize = 0;
    while i < n
        invariant
            n == fields@.len(),
            0 <= i <= n,
            forall|j: int| 0 <= j < i ==> fields@[j].0@ != key@,
        decreases n - i,
    {
        if fields[i].0 == *key {
            proof {
                lemma_lookup_fields_skip(fields@, key@, i as int);
                assert(fields@.skip(i as int)[0] == fields@[i as int]);
                assert(lookup_fields(fields@.skip(i as int), key@) == Some(fields@[i as int].1));
            }
            return Some(&fields[i].1);
        }
        i += 1;
    }
    proof {
        lemma_lookup_fields_skip(fields@, key@, n as int);
        assert(fields@.skip(n as int) =~= Seq::<(String, Value)>::empty());
    }
    None
}

/// Looks `key` up inside `v`; yields nothing when `v` is not an object.
pub fn get_value_field<'a>(v: &'a Value, key: &String) -> (r: Option<&'a Value>)
    ensures
        match r {
            Some(found) => lookup_value(*v, key@) == Some(*found),
            None => lookup_value(*v, key@) is None,
        },
{
    match v {
        Value::Object(fields) => get_field(fields, key),
        _ => None,
    }
}

} // verus!
