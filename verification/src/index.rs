//! Secondary field indexes, the index registry, and the payload access
//! provider: read-only, per-point value sequences that the
//! index-accelerated checkers consume, and the registry mapping full field
//! paths to the indexes available for them.

use vstd::prelude::*;

use crate::conditions::GeoPoint;
use crate::path::{spec_add_segment, Path, PathModel};
use crate::text::views_of;
use crate::value::Payload;

verus! {

/// A point identifier: the offset addressing one stored document.
pub type PointOffsetType = u32;

/// One secondary index's stored data: for each point, the ordered sequence
/// of indexed values, or nothing when the point has no value for the
/// field. Positions in the sequence are the element positions the nested
/// checkers correlate on.
pub struct PerPointValues<V> {
    pub values: Vec<Option<Vec<V>>>,
}

impl<V> PerPointValues<V> {
    /// The stored value sequence of one point, if any.
    pub open spec fn spec_values(self, point_id: PointOffsetType) -> Option<Seq<V>> {
        if (point_id as int) < self.values@.len() {
            match self.values@[point_id as int] {
                Some(v) => Some(v@),
                None => None,
            }
        } else {
            None
        }
    }

    /// `get_values` of the index contract: the point's ordered values, or
    /// nothing, which the checkers treat as "no matches", never an error.
    pub fn get_values(&self, point_id: PointOffsetType) -> (r: Option<&Vec<V>>)
        ensures
            match r {
                Some(v) => self.spec_values(point_id) == Some(v@),
                None => self.spec_values(point_id) is None,
            },
    {
        if (point_id as usize) < self.values.len() {
            self.values[point_id as usize].as_ref()
        } else {
            None
        }
    }
}

/// A secondary field index, polymorphic over index kind. Numeric indexes
/// hold the caller's integer encoding of numbers; a full-text index holds
/// each point's document as its token list.
pub enum FieldIndex {
    IntIndex(PerPointValues<i64>),
    IntMapIndex(PerPointValues<i64>),
    KeywordIndex(PerPointValues<String>),
    FloatIndex(PerPointValues<i64>),
    GeoIndex(PerPointValues<GeoPoint>),
    FullTextIndex(PerPointValues<String>),
}

/// One registry entry: a full field path and the indexes available for it.
pub struct IndexesEntry {
    pub path: Path,
    pub indexes: Vec<FieldIndex>,
}

/// The index registry: maps a full field path to the ordered list of
/// available indexes for that path. Passed to the dispatcher explicitly,
/// never ambient.
pub struct IndexesMap {
    pub entries: Vec<IndexesEntry>,
}

/// The registry's answer for a target path: the indexes of the first entry
/// whose path equals it.
pub open spec fn registry_lookup(entries: Seq<IndexesEntry>, target: PathModel) -> Option<
    Seq<FieldIndex>,
>
    decreases entries.len(),
{
    if entries.len() == 0 {
        None::<Seq<FieldIndex>>
    } else if entries[0].path@ == target {
        Some(entries[0].indexes@)
    } else {
        registry_lookup(entries.drop_first(), target)
    }
}

proof fn lemma_registry_lookup_skip(entries: Seq<IndexesEntry>, target: PathModel, i: int)
    requires
        0 <= i <= entries.len(),
        forall|j: int| 0 <= j < i ==> (#[trigger] entries[j]).path@ != target,
    ensures
        registry_lookup(entries, target) == registry_lookup(entries.skip(i), target),
    decreases i,
{
    if i > 0 {
        assert(entries.skip(1) =~= entries.drop_first());
        lemma_registry_lookup_skip(entries.drop_first(), target, i - 1);
        assert(entries.drop_first().skip(i - 1) =~= entries.skip(i));
    } else {
        assert(entries.skip(0) =~= entries);
    }
}

/// Whether two key lists read as the same character sequences.
fn string_vec_eq(a: &Vec<String>, b: &Vec<String>) -> (r: bool)
    ensures
        r == (views_of(a@) == views_of(b@)),
{
    let n = a.len();
    if n != b.len() {
        proof {
            assert(views_of(a@).len() != views_of(b@).len());
        }
        return false;
    }
    let mut i: usize = 0;
    while i < n
        invariant
            0 <= i <= n,
            n == a@.len() && n == b@.len(),
            forall|j: int| 0 <= j < i ==> views_of(a@)[j] == views_of(b@)[j],
        decreases n - i,
    {
        if !(a[i] == b[i]) {
            proof {
                assert(views_of(a@)[i as int] == a@[i as int]@);
                assert(views_of(b@)[i as int] == b@[i as int]@);
            }
            return false;
        }
        i += 1;
    }
    proof {
        assert(views_of(a@) =~= views_of(b@));
    }
    true
}

/// Whether `a` reads as `b` followed by one more key `key`.
fn string_vec_eq_push(a: &Vec<String>, b: &Vec<String>, key: &String) -> (r: bool)
    ensures
        r == (views_of(a@) == views_of(b@).push(key@)),
{
    let n = a.len();
    if n == 0 {
        proof {
            assert(views_of(b@).push(key@).len() > 0);
        }
        return false;
    }
    let last = n - 1;
    if last != b.len() {
        proof {
            assert(views_of(a@).len() != views_of(b@).push(key@).len());
        }
        return false;
    }
    let mut i: usize = 0;
    while i < last
        invariant
            0 <= i <= last,
            last == b@.len() && n == a@.len() && n == last + 1,
            forall|j: int| 0 <= j < i ==> views_of(a@)[j] == views_of(b@).push(key@)[j],
        decreases last - i,
    {
        if !(a[i] == b[i]) {
            proof {
                assert(views_of(a@)[i as int] == a@[i as int]@);
                assert(views_of(b@).push(key@)[i as int] == b@[i as int]@);
            }
            return false;
        }
        proof {
            assert(views_of(b@).push(key@)[i as int] == b@[i as int]@);
        }
        i += 1;
    }
    if a[last] == *key {
        proof {
            assert(views_of(a@)[last as int] == a@[last as int]@);
            assert(views_of(b@).push(key@)[last as int] == key@);
            assert(views_of(a@) =~= views_of(b@).push(key@));
        }
        true
    } else {
        proof {
            assert(views_of(a@)[last as int] == a@[last as int]@);
            assert(views_of(b@).push(key@)[last as int] == key@);
        }
        false
    }
}

/// Whether an entry's path is exactly the field `key` under `nested_path`.
fn path_matches(entry_path: &Path, nested_path: &Path, key: &String) -> (r: bool)
    ensures
        r == (entry_path@ == spec_add_segment(nested_path@, key@)),
{
    let ghost target = spec_add_segment(nested_path@, key@);
    match (&entry_path.nested, &nested_path.nested) {
        (None, None) => {
            let r = string_vec_eq_push(&entry_path.keys, &nested_path.keys, key);
            proof {
                if r {
                    assert(entry_path@ == target);
                } else {
                    assert(entry_path@.keys != target.keys);
                }
            }
            r
        },
        (Some(entry_suffix), Some(nested_suffix)) => {
            let keys_ok = string_vec_eq(&entry_path.keys, &nested_path.keys);
            let suffix_ok = string_vec_eq_push(entry_suffix, nested_suffix, key);
            let r = keys_ok && suffix_ok;
            proof {
                if r {
                    assert(entry_path@ == target);
                } else {
                    if !keys_ok {
                        assert(entry_path@.keys != target.keys);
                    } else {
                        assert(entry_path@.suffix != target.suffix);
                    }
                }
            }
            r
        },
        _ => {
            proof {
                assert(entry_path@.suffix is Some <==> entry_path.nested is Some);
                assert(target.suffix is Some <==> nested_path.nested is Some);
            }
            false
        },
    }
}

impl IndexesMap {
    /// Finds the indexes registered for the field `key` under
    /// `nested_path`, if any.
    #[verifier::loop_isolation(false)]
    pub fn get<'a>(&'a self, nested_path: &Path, key: &String) -> (r: Option<&'a Vec<FieldIndex>>)
        ensures
            match r {
                Some(v) => registry_lookup(self.entries@, spec_add_segment(nested_path@, key@))
                    == Some(v@),
                None => registry_lookup(self.entries@, spec_add_segment(nested_path@, key@))
                    is None,
            },
    {
        let ghost target = spec_add_segment(nested_path@, key@);
        let n = self.entries.len();
        let mut i: usize = 0;
        while i < n
            invariant
                0 <= i <= n,
                n == self.entries@.len(),
                forall|j: int| 0 <= j < i ==> (#[trigger] self.entries@[j]).path@ != target,
            decreases n - i,
        {
            if path_matches(&self.entries[i].path, nested_path, key) {
                proof {
                    lemma_registry_lookup_skip(self.entries@, target, i as int);
                    assert(self.entries@.skip(i as int)[0] == self.entries@[i as int]);
                }
                return Some(&self.entries[i].indexes);
            }
            i += 1;
        }
        proof {
            lemma_registry_lookup_skip(self.entries@, target, n as int);
            assert(self.entries@.skip(n as int) =~= Seq::<IndexesEntry>::empty());
        }
        None
    }
}

/// The payload access provider: scoped, read-only access to each point's
/// raw document. A point outside the stored range yields the empty
/// document, so access is total and absence stays meaningful.
pub struct PayloadProvider {
    pub payloads: Vec<Payload>,
    pub empty: Payload,
}

impl PayloadProvider {
    /// The provider hands out an empty document for unknown points.
    pub open spec fn wf(self) -> bool {
        self.empty.fields@.len() == 0
    }

    /// The documents the provider was built over.
    pub open spec fn spec_payloads(self) -> Seq<Payload> {
        self.payloads@
    }

    /// The document this provider yields for a point.
    pub open spec fn spec_payload(self, point_id: PointOffsetType) -> Payload {
        if (point_id as int) < self.payloads@.len() {
            self.payloads@[point_id as int]
        } else {
            self.empty
        }
    }

    /// Builds a provider over the documents of points `0..payloads.len()`.
    pub fn new(payloads: Vec<Payload>) -> (r: PayloadProvider)
        ensures
            r.wf(),
            r.spec_payloads() == payloads@,
    {
        PayloadProvider { payloads, empty: Payload { fields: Vec::new() } }
    }

    /// Borrows the document of one point for the duration of one
    /// evaluation.
    pub fn payload(&self, point_id: PointOffsetType) -> (r: &Payload)
        ensures
            *r == self.spec_payload(point_id),
    {
        if (point_id as usize) < self.payloads.len() {
            &self.payloads[point_id as usize]
        } else {
            &self.empty
        }
    }
}

} // verus!
