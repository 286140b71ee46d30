//! Field paths and the payload path resolver: a path is a sequence of
//! object-key segments, optionally crossing one array boundary, and
//! resolving it against a document yields either a single optional value or
//! one value per array element.

use vstd::prelude::*;

use crate::text::views_of;
use crate::value::{get_field, get_value_field, lookup_fields, lookup_value, Payload, Value};

verus! {

/// A field path: the keys before the (at most one) array-descent marker,
/// and, when the marker is present, the keys that follow it.
///
/// `nested: None` is a plain dotted path; `nested: Some(suffix)` descends
/// into the array reached by `keys` and resolves `suffix` inside each
/// element. Representing the marker this way makes deeper nesting
/// unrepresentable rather than merely rejected.
pub struct Path {
    pub keys: Vec<String>,
    pub nested: Option<Vec<String>>,
}

/// The mathematical shape of a `Path`: each key as its character sequence.
pub struct PathModel {
    pub keys: Seq<Seq<char>>,
    pub suffix: Option<Seq<Seq<char>>>,
}

impl View for Path {
    type V = PathModel;

    open spec fn view(&self) -> PathModel {
        PathModel {
            keys: views_of(self.keys@),
            suffix: match self.nested {
                Some(s) => Some(views_of(s@)),
                None => None,
            },
        }
    }
}

/// The path that addresses field `key` under `path`: the key is appended
/// after the array marker when one is present, else to the plain keys.
pub open spec fn spec_add_segment(path: PathModel, key: Seq<char>) -> PathModel {
    match path.suffix {
        None => PathModel { keys: path.keys.push(key), suffix: None },
        Some(suffix) => PathModel { keys: path.keys, suffix: Some(suffix.push(key)) },
    }
}

/// Follows a sequence of object keys down from `v`; any missing key or
/// non-object intermediate value ends the walk with nothing.
pub open spec fn lookup_path(v: Value, keys: Seq<Seq<char>>) -> Option<Value>
    decreases keys.len(),
{
    if keys.len() == 0 {
        Some(v)
    } else {
        match lookup_value(v, keys[0]) {
            Some(v2) => lookup_path(v2, keys.drop_first()),
            None => None,
        }
    }
}

/// Follows `keys` down from the document root.
pub open spec fn payload_lookup(p: Payload, keys: Seq<Seq<char>>) -> Option<Value> {
    lookup_path(Value::Object(p.fields), keys)
}

/// The value an array element contributes at a path suffix: the resolved
/// sub-value, or null as the placeholder for an absent one.
pub open spec fn elem_value(elem: Value, suffix: Seq<Seq<char>>) -> Value {
    match lookup_path(elem, suffix) {
        Some(v) => v,
        None => Value::Null,
    }
}

/// How many element positions a resolved path offers: one per array element
/// for an array-crossing path, one or zero for a plain path.
pub open spec fn resolved_count(p: Payload, path: PathModel) -> nat {
    match path.suffix {
        None => if payload_lookup(p, path.keys) is Some {
            1nat
        } else {
            0nat
        },
        Some(_) => match payload_lookup(p, path.keys) {
            Some(Value::Array(elems)) => elems@.len(),
            _ => 0nat,
        },
    }
}

/// The value at element position `i` of a resolved path; meaningful for
/// `0 <= i < resolved_count(p, path)`.
pub open spec fn resolved_at(p: Payload, path: PathModel, i: int) -> Value {
    match path.suffix {
        None => match payload_lookup(p, path.keys) {
            Some(v) => v,
            None => Value::Null,
        },
        Some(suffix) => match payload_lookup(p, path.keys) {
            Some(Value::Array(elems)) => elem_value(elems@[i], suffix),
            _ => Value::Null,
        },
    }
}

/// Appending one key to a walk is the walk followed by one lookup.
pub proof fn lemma_lookup_path_push(v: Value, keys: Seq<Seq<char>>, key: Seq<char>)
    ensures
        lookup_path(v, keys.push(key)) == (match lookup_path(v, keys) {
            Some(v2) => lookup_value(v2, key),
            None => None::<Value>,
        }),
    decreases keys.len(),
{
    if keys.len() == 0 {
        assert(keys.push(key)[0] == key);
        assert(keys.push(key).drop_first() =~= Seq::<Seq<char>>::empty());
        assert(lookup_path(v, keys) == Some(v));
        match lookup_value(v, key) {
            Some(v2) => {
                assert(lookup_path(v2, keys.push(key).drop_first()) == Some(v2));
            },
            None => {},
        }
    } else {
        assert(keys.push(key)[0] == keys[0]);
        assert(keys.push(key).drop_first() =~= keys.drop_first().push(key));
        match lookup_value(v, keys[0]) {
            Some(v2) => {
                lemma_lookup_path_push(v2, keys.drop_first(), key);
            },
            None => {},
        }
    }
}

/// A resolved path: zero-or-one value for a plain path, one optional value
/// per array element for an array-crossing path. `None` inside `Multiple`
/// is the placeholder for an element where the suffix is absent; it is
/// treated as null.
pub enum MultiValue<'a> {
    Single(Option<&'a Value>),
    Multiple(Vec<Option<&'a Value>>),
}

/// The value a `Multiple` entry stands for: the resolved value, or null for
/// the absent-placeholder.
pub open spec fn entry_value(entry: Option<&Value>) -> Value {
    match entry {
        Some(v) => *v,
        None => Value::Null,
    }
}

/// Follows `keys[start..]` down from `v`.
fn value_descend<'a>(v: &'a Value, keys: &Vec<String>, start: usize) -> (r: Option<&'a Value>)
    requires
        start <= keys@.len(),
    ensures
        match r {
            Some(found) => lookup_path(*v, views_of(keys@).skip(start as int)) == Some(*found),
            None => lookup_path(*v, views_of(keys@).skip(start as int)) is None,
        },
{
    let n = keys.len();
    let mut cur: &'a Value = v;
    let mut i: usize = start;
    while i < n
        invariant
            start <= i <= n,
            n == keys@.len(),
            lookup_path(*v, views_of(keys@).skip(start as int)) == lookup_path(
                *cur,
                views_of(keys@).skip(i as int),
            ),
        decreases n - i,
    {
        let next = get_value_field(cur, &keys[i]);
        proof {
            assert(views_of(keys@).skip(i as int)[0] == keys@[i as int]@);
            assert(views_of(keys@).skip(i as int).drop_first() =~= views_of(keys@).skip(
                i as int + 1,
            ));
        }
        match next {
            Some(v2) => {
                cur = v2;
            },
            None => {
                return None;
            },
        }
        i += 1;
    }
    proof {
        assert(views_of(keys@).skip(n as int) =~= Seq::<Seq<char>>::empty());
    }
    Some(cur)
}

/// Follows `keys` down from the document root; callable only for nonempty
/// key lists, since the root itself is not a `Value`.
fn payload_descend<'a>(payload: &'a Payload, keys: &Vec<String>) -> (r: Option<&'a Value>)
    requires
        keys@.len() >= 1,
    ensures
        match r {
            Some(found) => payload_lookup(*payload, views_of(keys@)) == Some(*found),
            None => payload_lookup(*payload, views_of(keys@)) is None,
        },
{
    proof {
        assert(views_of(keys@)[0] == keys@[0]@);
        assert(views_of(keys@)[0] == views_of(keys@).skip(0)[0]);
        assert(views_of(keys@).drop_first() =~= views_of(keys@).skip(1));
    }
    let first = get_field(&payload.fields, &keys[0]);
    match first {
        Some(v) => value_descend(v, keys, 1),
        None => None,
    }
}

/// Follows `keys[start..]` and then `key` down from `v`.
fn value_descend_key<'a>(v: &'a Value, keys: &Vec<String>, start: usize, key: &String) -> (r:
    Option<&'a Value>)
    requires
        start <= keys@.len(),
    ensures
        match r {
            Some(found) => lookup_path(*v, views_of(keys@).skip(start as int).push(key@)) == Some(
                *found,
            ),
            None => lookup_path(*v, views_of(keys@).skip(start as int).push(key@)) is None,
        },
{
    proof {
        lemma_lookup_path_push(*v, views_of(keys@).skip(start as int), key@);
    }
    match value_descend(v, keys, start) {
        Some(base) => get_value_field(base, key),
        None => None,
    }
}

/// The payload path resolver: resolves the field `key` under `nested_path`
/// against `payload`. A plain path yields `Single`; an array-crossing path
/// yields `Multiple` with one entry per array element, in array order, with
/// the placeholder `None` where an element lacks the sub-field. A missing
/// intermediate key, or an array marker over a non-array, yields
/// `Single(None)` or an empty `Multiple`, never an error.
pub fn resolve<'a>(payload: &'a Payload, nested_path: &Path, key: &String) -> (r: MultiValue<'a>)
    ensures
        ({
            let full = spec_add_segment(nested_path@, key@);
            match r {
                MultiValue::Single(opt) => nested_path@.suffix is None && (match opt {
                    Some(v) => payload_lookup(*payload, full.keys) == Some(*v),
                    None => payload_lookup(*payload, full.keys) is None,
                }),
                MultiValue::Multiple(entries) => nested_path@.suffix is Some
                    && entries@.len() == resolved_count(*payload, full) && (forall|i: int|
                    0 <= i < entries@.len() ==> entry_value(#[trigger] entries@[i]) == resolved_at(
                        *payload,
                        full,
                        i,
                    )),
            }
        }),
{
    match &nested_path.nested {
        None => {
            proof {
                lemma_lookup_path_push(
                    Value::Object(payload.fields),
                    views_of(nested_path.keys@),
                    key@,
                );
            }
            if nested_path.keys.len() == 0 {
                proof {
                    assert(views_of(nested_path.keys@) =~= Seq::<Seq<char>>::empty());
                    assert(payload_lookup(*payload, views_of(nested_path.keys@)) == Some(
                        Value::Object(payload.fields),
                    ));
                }
                MultiValue::Single(get_field(&payload.fields, key))
            } else {
                match payload_descend(payload, &nested_path.keys) {
                    Some(base) => MultiValue::Single(get_value_field(base, key)),
                    None => MultiValue::Single(None),
                }
            }
        },
        Some(suffix) => {
            let ghost full = spec_add_segment(nested_path@, key@);
            let base: Option<&Value> = if nested_path.keys.len() == 0 {
                proof {
                    assert(full.keys =~= Seq::<Seq<char>>::empty());
                    assert(payload_lookup(*payload, full.keys) == Some(
                        Value::Object(payload.fields),
                    ));
                }
                None
            } else {
                payload_descend(payload, &nested_path.keys)
            };
            match base {
                Some(Value::Array(elems)) => {
                    let n = elems.len();
                    let mut entries: Vec<Option<&'a Value>> = Vec::new();
                    let mut i: usize = 0;
                    while i < n
                        invariant
                            0 <= i <= n,
                            n == elems@.len(),
                            payload_lookup(*payload, full.keys) == Some(Value::Array(*elems)),
                            full == spec_add_segment(nested_path@, key@),
                            full.suffix == Some(views_of(suffix@).push(key@)),
                            entries@.len() == i,
                            forall|j: int|
                                0 <= j < i ==> entry_value(#[trigger] entries@[j]) == resolved_at(
                                    *payload,
                                    full,
                                    j,
                                ),
                        decreases n - i,
                    {
                        let entry = value_descend_key(&elems[i], suffix, 0, key);
                        proof {
                            assert(views_of(suffix@).skip(0) =~= views_of(suffix@));
                        }
                        entries.push(entry);
                        i += 1;
                    }
                    MultiValue::Multiple(entries)
                },
                _ => MultiValue::Multiple(Vec::new()),
            }
        },
    }
}

} // verus!
