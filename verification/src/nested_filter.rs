//! The positional AND-merge engine: combines the matching-position lists
//! produced by every condition scoped to one nested array and decides
//! point-level matching by position intersection, tallying how many
//! conditions matched each element position.

use std::collections::HashMap;

use vstd::prelude::*;

use crate::conditions::{
    bbox_sat, geo_radius_sat, integer_list_contains, keyword_list_contains, range_sat,
    valid_nested_condition, AnyVariants, Condition, FieldCondition, GeoBoundingBox, GeoPoint,
    GeoRadius, Match, Range, ValueVariants,
};
use crate::index::{
    registry_lookup, FieldIndex, IndexesEntry, IndexesMap, PayloadProvider, PerPointValues,
    PointOffsetType,
};
use crate::nested_query_checker::{
    condition_positions_contains, nested_condition_matching_positions, valid_nested_conditions,
};
use crate::path::{spec_add_segment, Path, PathModel};
use crate::positions::{
    count_containing, distinct_positions, lemma_count_containing_bound,
    lemma_count_containing_full, lemma_push_contains, lemma_push_increasing,
    lemma_strictly_increasing_distinct, lemma_take_all, lemma_take_step, lists_view,
    merged_matches, strictly_increasing, all_contain,
};
use crate::text::{tokens_of, tokens_subset, views_of, ParsedQuery};

verus! {

broadcast use vstd::std_specs::hash::group_hash_axioms;

/// Payload element index: the 0-based position inside the nested array.
pub type ElemIndex = usize;

/// What a tally map holds for a position: its count, or zero when absent.
pub open spec fn map_count(m: Map<usize, usize>, pos: usize) -> nat {
    if m.dom().contains(pos) {
        m[pos] as nat
    } else {
        0nat
    }
}

/// Merges several per-condition matching-position lists into the single
/// point-level answer: true iff some one element position occurs in every
/// list. With no conditions the answer is vacuously true. Each list must be
/// duplicate-free, as the per-condition checkers guarantee; the tally of a
/// position then equals the number of lists containing it.
#[verifier::loop_isolation(false)]
pub fn merge_nested_matching_indices(matching_indices: &Vec<Vec<ElemIndex>>) -> (r: bool)
    requires
        forall|k: int|
            0 <= k < matching_indices@.len() ==> distinct_positions(
                (#[trigger] matching_indices@[k])@,
            ),
    ensures
        r == merged_matches(lists_view(matching_indices@)),
{
    let ghost lv = lists_view(matching_indices@);
    // number of nested conditions to match
    let condition_count = matching_indices.len();
    if condition_count == 0 {
        return true;
    }
    // binds a payload element position to the number of matches it has
    // accumulated so far
    let mut matches: HashMap<ElemIndex, usize> = HashMap::new();
    let mut found = false;
    let mut k: usize = 0;
    while k < condition_count
        invariant
            0 <= k <= condition_count,
            forall|pos: usize| #[trigger]
                map_count(matches@, pos) == count_containing(lv, k as int, pos),
            found <==> exists|pos: usize| #[trigger]
                count_containing(lv, k as int, pos) == condition_count,
        decreases condition_count - k,
    {
        let list = &matching_indices[k];
        proof {
            assert(lv[k as int] == list@);
        }
        let n_list = list.len();
        let mut j: usize = 0;
        while j < n_list
            invariant
                0 <= j <= n_list,
                k < condition_count,
                forall|pos: usize| #[trigger]
                    map_count(matches@, pos) == count_containing(lv, k as int, pos) + (
                    if lv[k as int].take(j as int).contains(pos) {
                        1nat
                    } else {
                        0nat
                    }),
                found <==> exists|pos: usize|
                    #[trigger] count_containing(lv, k as int, pos) + (if lv[k as int].take(j as int).contains(pos) {
                        1nat
                    } else {
                        0nat
                    }) == condition_count,
            decreases n_list - j,
        {
            let e = list[j];
            proof {
                assert(distinct_positions(lv[k as int]));
                if lv[k as int].take(j as int).contains(e) {
                    let m = choose|m: int|
                        0 <= m < lv[k as int].take(j as int).len() && lv[k as int].take(j as int)[m]
                            == e;
                    assert(lv[k as int][m] == e && lv[k as int][j as int] == e);
                    assert(false);
                }
                lemma_count_containing_bound(lv, k as int, e);
                assert(map_count(matches@, e) == count_containing(lv, k as int, e));
            }
            let c: usize = match matches.get(&e) {
                Some(cr) => *cr,
                None => 0,
            };
            proof {
                assert(c as nat == map_count(matches@, e));
                assert(c < condition_count);
            }
            let ghost m0 = matches@;
            let ghost found0 = found;
            let c2 = c + 1;
            matches.insert(e, c2);
            if c2 == condition_count {
                found = true;
            }
            proof {
                lemma_take_step(lv[k as int], j as int);
                assert forall|pos: usize| #[trigger]
                    map_count(matches@, pos) == count_containing(lv, k as int, pos) + (
                    if lv[k as int].take(j as int + 1).contains(pos) {
                        1nat
                    } else {
                        0nat
                    }) by {
                    if pos == e {
                        assert(map_count(matches@, e) == c2 as nat);
                    } else {
                        assert(map_count(matches@, pos) == map_count(m0, pos));
                    }
                }
                assert(found <==> exists|pos: usize|
                    #[trigger] count_containing(lv, k as int, pos) + (if lv[k as int].take(j as int + 1).contains(pos) {
                        1nat
                    } else {
                        0nat
                    }) == condition_count) by {
                    if found {
                        if found0 {
                            let pos0 = choose|pos: usize|
                                #[trigger] count_containing(lv, k as int, pos) + (if lv[k as int].take(j as int).contains(pos) {
                                    1nat
                                } else {
                                    0nat
                                }) == condition_count;
                            assert(pos0 != e);
                            assert(count_containing(lv, k as int, pos0) + (if lv[k as int].take(j as int + 1).contains(pos0) {
                                1nat
                            } else {
                                0nat
                            }) == condition_count);
                        } else {
                            assert(c2 == condition_count);
                            assert(count_containing(lv, k as int, e) + (if lv[k as int].take(j as int + 1).contains(e) {
                                1nat
                            } else {
                                0nat
                            }) == condition_count);
                        }
                    } else {
                        assert forall|pos: usize|
                            #[trigger] count_containing(lv, k as int, pos) + (if lv[k as int].take(j as int + 1).contains(pos) {
                                1nat
                            } else {
                                0nat
                            }) != condition_count by {
                            if pos == e {
                                assert(c2 < condition_count);
                            } else {
                                assert(count_containing(lv, k as int, pos) + (if lv[k as int].take(j as int).contains(pos) {
                                    1nat
                                } else {
                                    0nat
                                }) != condition_count);
                            }
                        }
                    }
                }
            }
            j += 1;
        }
        proof {
            lemma_take_all(lv[k as int]);
            assert(lv[k as int].take(n_list as int) =~= lv[k as int]);
            assert forall|pos: usize| #[trigger]
                map_count(matches@, pos) == count_containing(lv, k as int + 1, pos) by {
                assert(count_containing(lv, k as int + 1, pos) == count_containing(lv, k as int, pos)
                    + (if lv[k as int].contains(pos) {
                    1nat
                } else {
                    0nat
                }));
            }
            assert forall|pos: usize| #[trigger]
                count_containing(lv, k as int + 1, pos) == map_count(matches@, pos) by {}
            assert(found <==> exists|pos: usize| #[trigger]
                count_containing(lv, k as int + 1, pos) == condition_count) by {
                if found {
                    let pos0 = choose|pos: usize|
                        #[trigger] count_containing(lv, k as int, pos) + (if lv[k as int].take(
                            n_list as int,
                        ).contains(pos) {
                            1nat
                        } else {
                            0nat
                        }) == condition_count;
                    assert(count_containing(lv, k as int + 1, pos0) == condition_count);
                } else {
                    if exists|pos: usize| #[trigger]
                        count_containing(lv, k as int + 1, pos) == condition_count {
                        let pos1 = choose|pos: usize| #[trigger]
                            count_containing(lv, k as int + 1, pos) == condition_count;
                        assert(count_containing(lv, k as int, pos1) + (if lv[k as int].take(
                            n_list as int,
                        ).contains(pos1) {
                            1nat
                        } else {
                            0nat
                        }) == condition_count);
                        assert(false);
                    }
                }
            }
        }
        k += 1;
    }
    // some position's tally equals the condition count exactly iff some
    // single element position is satisfied by every condition
    proof {
        if found {
            let pos = choose|pos: usize| #[trigger]
                count_containing(lv, condition_count as int, pos) == condition_count;
            lemma_count_containing_full(lv, condition_count as int, pos);
            assert(all_contain(lv, pos));
            assert(merged_matches(lv));
        } else {
            if merged_matches(lv) {
                let pos = choose|pos: usize| #[trigger] all_contain(lv, pos);
                lemma_count_containing_full(lv, condition_count as int, pos);
                assert(count_containing(lv, condition_count as int, pos) == condition_count);
                assert(false);
            }
        }
    }
    found
}


/// Given a point id, a checker returns the list of payload element
/// positions matching its condition. A checker is built once per condition
/// by the dispatcher, holding borrowed index or provider handles, and is
/// evaluated per point id at query time.
pub enum NestedChecker<'a> {
    /// Keyword equality against a keyword index.
    KeywordMatch { index: &'a PerPointValues<String>, keyword: &'a String },
    /// Integer equality against an integer-set index.
    IntegerMatch { index: &'a PerPointValues<i64>, value: i64 },
    /// Full-text query against a full-text index. The underlying text
    /// index has no per-element positions, so any match is attributed to
    /// position 0 uniformly: lossy but conservative for singleton arrays.
    TextMatch { index: &'a PerPointValues<String>, query: ParsedQuery },
    /// Keyword membership against a keyword index.
    KeywordAny { index: &'a PerPointValues<String>, keywords: &'a Vec<String> },
    /// Integer membership against an integer-set index.
    IntegerAny { index: &'a PerPointValues<i64>, values: &'a Vec<i64> },
    /// Numeric range against an integer or float range index.
    NumericRange { index: &'a PerPointValues<i64>, range: Range },
    /// Geo-radius against a geo index.
    GeoRadiusCheck { index: &'a PerPointValues<GeoPoint>, radius: GeoRadius },
    /// Geo-bounding-box against a geo index.
    GeoBoxCheck { index: &'a PerPointValues<GeoPoint>, bbox: GeoBoundingBox },
    /// The document-scan fallback when no index applies.
    Fallback { provider: &'a PayloadProvider, condition: &'a Condition, nested_path: &'a Path },
}

impl<'a> NestedChecker<'a> {
    /// A fallback checker carries only conditions valid in nested scope.
    pub open spec fn wf(self) -> bool {
        match self {
            NestedChecker::Fallback { condition, .. } => valid_nested_condition(*condition),
            _ => true,
        }
    }

    /// Whether element position `i` of `point_id` matches this checker.
    pub open spec fn matches_at(self, point_id: PointOffsetType, i: int) -> bool {
        match self {
            NestedChecker::KeywordMatch { index, keyword } => match index.spec_values(point_id) {
                Some(vs) => 0 <= i < vs.len() && vs[i]@ == keyword@,
                None => false,
            },
            NestedChecker::IntegerMatch { index, value } => match index.spec_values(point_id) {
                Some(vs) => 0 <= i < vs.len() && vs[i] == value,
                None => false,
            },
            NestedChecker::TextMatch { index, query } => match index.spec_values(point_id) {
                Some(doc) => i == 0 && tokens_subset(query.spec_tokens(), views_of(doc)),
                None => false,
            },
            NestedChecker::KeywordAny { index, keywords } => match index.spec_values(point_id) {
                Some(vs) => 0 <= i < vs.len() && (exists|j: int|
                    0 <= j < keywords@.len() && (#[trigger] keywords@[j])@ == vs[i]@),
                None => false,
            },
            NestedChecker::IntegerAny { index, values } => match index.spec_values(point_id) {
                Some(vs) => 0 <= i < vs.len() && (exists|j: int|
                    0 <= j < values@.len() && #[trigger] values@[j] == vs[i]),
                None => false,
            },
            NestedChecker::NumericRange { index, range } => match index.spec_values(point_id) {
                Some(vs) => 0 <= i < vs.len() && range_sat(range, vs[i] as int),
                None => false,
            },
            NestedChecker::GeoRadiusCheck { index, radius } => match index.spec_values(point_id) {
                Some(vs) => 0 <= i < vs.len() && geo_radius_sat(
                    radius,
                    vs[i].lon as int,
                    vs[i].lat as int,
                ),
                None => false,
            },
            NestedChecker::GeoBoxCheck { index, bbox } => match index.spec_values(point_id) {
                Some(vs) => 0 <= i < vs.len() && bbox_sat(bbox, vs[i].lon as int, vs[i].lat as int),
                None => false,
            },
            NestedChecker::Fallback { provider, condition, nested_path } =>
                condition_positions_contains(
                *condition,
                provider.spec_payload(point_id),
                nested_path@,
                i,
            ),
        }
    }

    /// Evaluates this checker for one point: the ascending list of element
    /// positions matching its condition.
    pub fn evaluate(&self, point_id: PointOffsetType) -> (r: Vec<usize>)
        requires
            self.wf(),
        ensures
            strictly_increasing(r@),
            forall|pos: usize| #[trigger]
                r@.contains(pos) <==> self.matches_at(point_id, pos as int),
    {
        match self {
            NestedChecker::KeywordMatch { index, keyword } => match index.get_values(point_id) {
                None => Vec::new(),
                Some(values) => positions_keyword_eq(values, keyword),
            },
            NestedChecker::IntegerMatch { index, value } => match index.get_values(point_id) {
                None => Vec::new(),
                Some(values) => positions_integer_eq(values, *value),
            },
            NestedChecker::TextMatch { index, query } => match index.get_values(point_id) {
                None => Vec::new(),
                Some(doc) => {
                    let res = query.check_match(doc);
                    let mut out: Vec<usize> = Vec::new();
                    if res {
                        out.push(0);
                    }
                    proof {
                        assert forall|pos: usize| #[trigger]
                            out@.contains(pos) <==> self.matches_at(point_id, pos as int) by {
                            if out@.contains(pos) {
                                let j = choose|j: int| 0 <= j < out@.len() && out@[j] == pos;
                                assert(pos == 0);
                            }
                            if self.matches_at(point_id, pos as int) {
                                assert(res && pos == 0);
                                assert(out@[0] == 0usize);
                            }
                        }
                    }
                    out
                },
            },
            NestedChecker::KeywordAny { index, keywords } => match index.get_values(point_id) {
                None => Vec::new(),
                Some(values) => positions_keyword_any(values, keywords),
            },
            NestedChecker::IntegerAny { index, values } => match index.get_values(point_id) {
                None => Vec::new(),
                Some(stored) => positions_integer_any(stored, values),
            },
            NestedChecker::NumericRange { index, range } => match index.get_values(point_id) {
                None => Vec::new(),
                Some(values) => positions_range(values, range),
            },
            NestedChecker::GeoRadiusCheck { index, radius } => match index.get_values(point_id) {
                None => Vec::new(),
                Some(values) => positions_geo_radius(values, radius),
            },
            NestedChecker::GeoBoxCheck { index, bbox } => match index.get_values(point_id) {
                None => Vec::new(),
                Some(values) => positions_geo_box(values, bbox),
            },
            NestedChecker::Fallback { provider, condition, nested_path } => {
                let payload = provider.payload(point_id);
                nested_condition_matching_positions(condition, payload, nested_path)
            },
        }
    }
}

/// Positions of stored keywords equal to the target keyword.
#[verifier::loop_isolation(false)]
fn positions_keyword_eq(values: &Vec<String>, keyword: &String) -> (r: Vec<usize>)
    ensures
        strictly_increasing(r@),
        forall|pos: usize| #[trigger]
            r@.contains(pos) <==> (pos < values@.len() && values@[pos as int]@ == keyword@),
{
    let n = values.len();
    let mut out: Vec<usize> = Vec::new();
    let mut i: usize = 0;
    while i < n
        invariant
            0 <= i <= n,
            strictly_increasing(out@),
            forall|j: int| 0 <= j < out@.len() ==> #[trigger] out@[j] < i,
            forall|pos: usize|
                pos < i ==> (out@.contains(pos) <==> values@[pos as int]@ == keyword@),
        decreases n - i,
    {
        proof {
            lemma_push_contains(out@, i);
            lemma_push_increasing(out@, i);
        }
        if values[i] == *keyword {
            out.push(i);
        }
        i += 1;
    }
    proof {
        assert forall|pos: usize| #[trigger]
            out@.contains(pos) <==> (pos < values@.len() && values@[pos as int]@ == keyword@) by {
            if out@.contains(pos) {
                let j = choose|j: int| 0 <= j < out@.len() && out@[j] == pos;
                assert(pos < n);
            }
        }
    }
    out
}

/// Positions of stored integers equal to the target value.
#[verifier::loop_isolation(false)]
fn positions_integer_eq(values: &Vec<i64>, value: i64) -> (r: Vec<usize>)
    ensures
        strictly_increasing(r@),
        forall|pos: usize| #[trigger]
            r@.contains(pos) <==> (pos < values@.len() && values@[pos as int] == value),
{
    let n = values.len();
    let mut out: Vec<usize> = Vec::new();
    let mut i: usize = 0;
    while i < n
        invariant
            0 <= i <= n,
            strictly_increasing(out@),
            forall|j: int| 0 <= j < out@.len() ==> #[trigger] out@[j] < i,
            forall|pos: usize| pos < i ==> (out@.contains(pos) <==> values@[pos as int] == value),
        decreases n - i,
    {
        proof {
            lemma_push_contains(out@, i);
            lemma_push_increasing(out@, i);
        }
        if values[i] == value {
            out.push(i);
        }
        i += 1;
    }
    proof {
        assert forall|pos: usize| #[trigger]
            out@.contains(pos) <==> (pos < values@.len() && values@[pos as int] == value) by {
            if out@.contains(pos) {
                let j = choose|j: int| 0 <= j < out@.len() && out@[j] == pos;
                assert(pos < n);
            }
        }
    }
    out
}

/// Positions of stored keywords that occur in the target list.
#[verifier::loop_isolation(false)]
fn positions_keyword_any(values: &Vec<String>, keywords: &Vec<String>) -> (r: Vec<usize>)
    ensures
        strictly_increasing(r@),
        forall|pos: usize| #[trigger]
            r@.contains(pos) <==> (pos < values@.len() && (exists|j: int|
                0 <= j < keywords@.len() && (#[trigger] keywords@[j])@ == values@[pos as int]@)),
{
    let n = values.len();
    let mut out: Vec<usize> = Vec::new();
    let mut i: usize = 0;
    while i < n
        invariant
            0 <= i <= n,
            strictly_increasing(out@),
            forall|j: int| 0 <= j < out@.len() ==> #[trigger] out@[j] < i,
            forall|pos: usize|
                pos < i ==> (out@.contains(pos) <==> (exists|j: int|
                    0 <= j < keywords@.len() && (#[trigger] keywords@[j])@
                        == values@[pos as int]@)),
        decreases n - i,
    {
        proof {
            lemma_push_contains(out@, i);
            lemma_push_increasing(out@, i);
        }
        if keyword_list_contains(keywords, &values[i]) {
            out.push(i);
        }
        i += 1;
    }
    proof {
        assert forall|pos: usize| #[trigger]
            out@.contains(pos) <==> (pos < values@.len() && (exists|j: int|
                0 <= j < keywords@.len() && (#[trigger] keywords@[j])@
                    == values@[pos as int]@)) by {
            if out@.contains(pos) {
                let j = choose|j: int| 0 <= j < out@.len() && out@[j] == pos;
                assert(pos < n);
            }
        }
    }
    out
}

/// Positions of stored integers that occur in the target list.
#[verifier::loop_isolation(false)]
fn positions_integer_any(values: &Vec<i64>, targets: &Vec<i64>) -> (r: Vec<usize>)
    ensures
        strictly_increasing(r@),
        forall|pos: usize| #[trigger]
            r@.contains(pos) <==> (pos < values@.len() && (exists|j: int|
                0 <= j < targets@.len() && #[trigger] targets@[j] == values@[pos as int])),
{
    let n = values.len();
    let mut out: Vec<usize> = Vec::new();
    let mut i: usize = 0;
    while i < n
        invariant
            0 <= i <= n,
            strictly_increasing(out@),
            forall|j: int| 0 <= j < out@.len() ==> #[trigger] out@[j] < i,
            forall|pos: usize|
                pos < i ==> (out@.contains(pos) <==> (exists|j: int|
                    0 <= j < targets@.len() && #[trigger] targets@[j] == values@[pos as int])),
        decreases n - i,
    {
        proof {
            lemma_push_contains(out@, i);
            lemma_push_increasing(out@, i);
        }
        if integer_list_contains(targets, values[i]) {
            out.push(i);
        }
        i += 1;
    }
    proof {
        assert forall|pos: usize| #[trigger]
            out@.contains(pos) <==> (pos < values@.len() && (exists|j: int|
                0 <= j < targets@.len() && #[trigger] targets@[j] == values@[pos as int])) by {
            if out@.contains(pos) {
                let j = choose|j: int| 0 <= j < out@.len() && out@[j] == pos;
                assert(pos < n);
            }
        }
    }
    out
}

/// Positions of stored numbers satisfying the range's set bounds.
#[verifier::loop_isolation(false)]
fn positions_range(values: &Vec<i64>, range: &Range) -> (r: Vec<usize>)
    ensures
        strictly_increasing(r@),
        forall|pos: usize| #[trigger]
            r@.contains(pos) <==> (pos < values@.len() && range_sat(
                *range,
                values@[pos as int] as int,
            )),
{
    let n = values.len();
    let mut out: Vec<usize> = Vec::new();
    let mut i: usize = 0;
    while i < n
        invariant
            0 <= i <= n,
            strictly_increasing(out@),
            forall|j: int| 0 <= j < out@.len() ==> #[trigger] out@[j] < i,
            forall|pos: usize|
                pos < i ==> (out@.contains(pos) <==> range_sat(
                    *range,
                    values@[pos as int] as int,
                )),
        decreases n - i,
    {
        proof {
            lemma_push_contains(out@, i);
            lemma_push_increasing(out@, i);
        }
        if range.check_range(values[i]) {
            out.push(i);
        }
        i += 1;
    }
    proof {
        assert forall|pos: usize| #[trigger]
            out@.contains(pos) <==> (pos < values@.len() && range_sat(
                *range,
                values@[pos as int] as int,
            )) by {
            if out@.contains(pos) {
                let j = choose|j: int| 0 <= j < out@.len() && out@[j] == pos;
                assert(pos < n);
            }
        }
    }
    out
}

/// Positions of stored coordinate pairs within the radius.
#[verifier::loop_isolation(false)]
fn positions_geo_radius(values: &Vec<GeoPoint>, radius: &GeoRadius) -> (r: Vec<usize>)
    ensures
        strictly_increasing(r@),
        forall|pos: usize| #[trigger]
            r@.contains(pos) <==> (pos < values@.len() && geo_radius_sat(
                *radius,
                values@[pos as int].lon as int,
                values@[pos as int].lat as int,
            )),
{
    let n = values.len();
    let mut out: Vec<usize> = Vec::new();
    let mut i: usize = 0;
    while i < n
        invariant
            0 <= i <= n,
            strictly_increasing(out@),
            forall|j: int| 0 <= j < out@.len() ==> #[trigger] out@[j] < i,
            forall|pos: usize|
                pos < i ==> (out@.contains(pos) <==> geo_radius_sat(
                    *radius,
                    values@[pos as int].lon as int,
                    values@[pos as int].lat as int,
                )),
        decreases n - i,
    {
        proof {
            lemma_push_contains(out@, i);
            lemma_push_increasing(out@, i);
        }
        let geo_point = &values[i];
        if radius.check_point(geo_point.lon, geo_point.lat) {
            out.push(i);
        }
        i += 1;
    }
    proof {
        assert forall|pos: usize| #[trigger]
            out@.contains(pos) <==> (pos < values@.len() && geo_radius_sat(
                *radius,
                values@[pos as int].lon as int,
                values@[pos as int].lat as int,
            )) by {
            if out@.contains(pos) {
                let j = choose|j: int| 0 <= j < out@.len() && out@[j] == pos;
                assert(pos < n);
            }
        }
    }
    out
}

/// Positions of stored coordinate pairs within the bounding box.
#[verifier::loop_isolation(false)]
fn positions_geo_box(values: &Vec<GeoPoint>, bbox: &GeoBoundingBox) -> (r: Vec<usize>)
    ensures
        strictly_increasing(r@),
        forall|pos: usize| #[trigger]
            r@.contains(pos) <==> (pos < values@.len() && bbox_sat(
                *bbox,
                values@[pos as int].lon as int,
                values@[pos as int].lat as int,
            )),
{
    let n = values.len();
    let mut out: Vec<usize> = Vec::new();
    let mut i: usize = 0;
    while i < n
        invariant
            0 <= i <= n,
            strictly_increasing(out@),
            forall|j: int| 0 <= j < out@.len() ==> #[trigger] out@[j] < i,
            forall|pos: usize|
                pos < i ==> (out@.contains(pos) <==> bbox_sat(
                    *bbox,
                    values@[pos as int].lon as int,
                    values@[pos as int].lat as int,
                )),
        decreases n - i,
    {
        proof {
            lemma_push_contains(out@, i);
            lemma_push_increasing(out@, i);
        }
        let geo_point = &values[i];
        if bbox.check_point(geo_point.lon, geo_point.lat) {
            out.push(i);
        }
        i += 1;
    }
    proof {
        assert forall|pos: usize| #[trigger]
            out@.contains(pos) <==> (pos < values@.len() && bbox_sat(
                *bbox,
                values@[pos as int].lon as int,
                values@[pos as int].lat as int,
            )) by {
            if out@.contains(pos) {
                let j = choose|j: int| 0 <= j < out@.len() && out@[j] == pos;
                assert(pos < n);
            }
        }
    }
    out
}


/// Whether an index kind can answer a match predicate: keyword equality
/// and keyword membership on a keyword index, integer equality and
/// membership on an integer-set index, full text on a full-text index.
pub open spec fn match_compatible(index: FieldIndex, m: Match) -> bool {
    match (m, index) {
        (Match::Value(mv), FieldIndex::KeywordIndex(_)) => mv.value is Keyword,
        (Match::Value(mv), FieldIndex::IntMapIndex(_)) => mv.value is Integer,
        (Match::Text(_), FieldIndex::FullTextIndex(_)) => true,
        (Match::Any(ma), FieldIndex::KeywordIndex(_)) => ma.any is Keywords,
        (Match::Any(ma), FieldIndex::IntMapIndex(_)) => ma.any is Integers,
        _ => false,
    }
}

/// The index-accelerated positions of a match predicate: the positions of
/// stored values equal to (or contained in, for match-any) the target; a
/// full-text match is attributed to position 0 uniformly.
pub open spec fn match_accel_at(index: FieldIndex, m: Match, point_id: PointOffsetType, i: int) -> bool {
    match (m, index) {
        (Match::Value(mv), FieldIndex::KeywordIndex(d)) => match (mv.value, d.spec_values(point_id)) {
            (ValueVariants::Keyword(k), Some(vs)) => 0 <= i < vs.len() && vs[i]@ == k@,
            _ => false,
        },
        (Match::Value(mv), FieldIndex::IntMapIndex(d)) => match (mv.value, d.spec_values(point_id)) {
            (ValueVariants::Integer(x), Some(vs)) => 0 <= i < vs.len() && vs[i] == x,
            _ => false,
        },
        (Match::Text(mt), FieldIndex::FullTextIndex(d)) => match d.spec_values(point_id) {
            Some(doc) => i == 0 && tokens_subset(tokens_of(mt.text@), views_of(doc)),
            None => false,
        },
        (Match::Any(ma), FieldIndex::KeywordIndex(d)) => match (ma.any, d.spec_values(point_id)) {
            (AnyVariants::Keywords(list), Some(vs)) => 0 <= i < vs.len() && (exists|j: int|
                0 <= j < list@.len() && (#[trigger] list@[j])@ == vs[i]@),
            _ => false,
        },
        (Match::Any(ma), FieldIndex::IntMapIndex(d)) => match (ma.any, d.spec_values(point_id)) {
            (AnyVariants::Integers(list), Some(vs)) => 0 <= i < vs.len() && (exists|j: int|
                0 <= j < list@.len() && #[trigger] list@[j] == vs[i]),
            _ => false,
        },
        _ => false,
    }
}

/// Whether an index kind can answer a numeric range predicate.
pub open spec fn range_compatible(index: FieldIndex) -> bool {
    index is IntIndex || index is FloatIndex
}

/// The index-accelerated positions of a range predicate.
pub open spec fn range_accel_at(index: FieldIndex, range: Range, point_id: PointOffsetType, i: int) -> bool {
    match index {
        FieldIndex::IntIndex(d) => match d.spec_values(point_id) {
            Some(vs) => 0 <= i < vs.len() && range_sat(range, vs[i] as int),
            None => false,
        },
        FieldIndex::FloatIndex(d) => match d.spec_values(point_id) {
            Some(vs) => 0 <= i < vs.len() && range_sat(range, vs[i] as int),
            None => false,
        },
        _ => false,
    }
}

/// Whether an index kind can answer a geo predicate.
pub open spec fn geo_compatible(index: FieldIndex) -> bool {
    index is GeoIndex
}

/// The index-accelerated positions of a geo-radius predicate.
pub open spec fn geo_radius_accel_at(index: FieldIndex, radius: GeoRadius, point_id: PointOffsetType, i: int) -> bool {
    match index {
        FieldIndex::GeoIndex(d) => match d.spec_values(point_id) {
            Some(vs) => 0 <= i < vs.len() && geo_radius_sat(radius, vs[i].lon as int, vs[i].lat as int),
            None => false,
        },
        _ => false,
    }
}

/// The index-accelerated positions of a geo-bounding-box predicate.
pub open spec fn geo_bbox_accel_at(index: FieldIndex, bbox: GeoBoundingBox, point_id: PointOffsetType, i: int) -> bool {
    match index {
        FieldIndex::GeoIndex(d) => match d.spec_values(point_id) {
            Some(vs) => 0 <= i < vs.len() && bbox_sat(bbox, vs[i].lon as int, vs[i].lat as int),
            None => false,
        },
        _ => false,
    }
}

/// Builds the index-accelerated checker for a match predicate, or nothing
/// when the index kind is incompatible with it.
pub fn get_nested_match_checkers<'a>(index: &'a FieldIndex, cond_match: &'a Match) -> (r: Option<
    NestedChecker<'a>,
>)
    ensures
        r is Some <==> match_compatible(*index, *cond_match),
        match r {
            Some(checker) => checker.wf() && forall|pt: PointOffsetType, i: int| #[trigger]
                checker.matches_at(pt, i) == match_accel_at(*index, *cond_match, pt, i),
            None => true,
        },
{
    match (cond_match, index) {
        (Match::Value(mv), FieldIndex::KeywordIndex(d)) => match &mv.value {
            ValueVariants::Keyword(keyword) => {
                let checker = NestedChecker::KeywordMatch { index: d, keyword };
                proof {
                    assert forall|pt: PointOffsetType, i: int| #[trigger]
                        checker.matches_at(pt, i) == match_accel_at(
                            *index,
                            *cond_match,
                            pt,
                            i,
                        ) by {}
                }
                Some(checker)
            },
            _ => None,
        },
        (Match::Value(mv), FieldIndex::IntMapIndex(d)) => match &mv.value {
            ValueVariants::Integer(value) => {
                let checker = NestedChecker::IntegerMatch { index: d, value: *value };
                proof {
                    assert forall|pt: PointOffsetType, i: int| #[trigger]
                        checker.matches_at(pt, i) == match_accel_at(
                            *index,
                            *cond_match,
                            pt,
                            i,
                        ) by {}
                }
                Some(checker)
            },
            _ => None,
        },
        (Match::Text(mt), FieldIndex::FullTextIndex(d)) => {
            let parsed_query = ParsedQuery::parse(mt.text.as_str());
            let checker = NestedChecker::TextMatch { index: d, query: parsed_query };
            proof {
                assert forall|pt: PointOffsetType, i: int| #[trigger]
                    checker.matches_at(pt, i) == match_accel_at(*index, *cond_match, pt, i) by {}
            }
            Some(checker)
        },
        (Match::Any(ma), FieldIndex::KeywordIndex(d)) => match &ma.any {
            AnyVariants::Keywords(keywords) => {
                let checker = NestedChecker::KeywordAny { index: d, keywords };
                proof {
                    assert forall|pt: PointOffsetType, i: int| #[trigger]
                        checker.matches_at(pt, i) == match_accel_at(
                            *index,
                            *cond_match,
                            pt,
                            i,
                        ) by {
                        assert(ma.any == AnyVariants::Keywords(*keywords));
                        match d.spec_values(pt) {
                            Some(vs) => {
                                if checker.matches_at(pt, i) {
                                    let j = choose|j: int|
                                        0 <= j < keywords@.len() && (#[trigger] keywords@[j])@
                                            == vs[i]@;
                                    assert((ma.any->Keywords_0)@[j]@ == vs[i]@);
                                    assert(match_accel_at(*index, *cond_match, pt, i));
                                }
                                if match_accel_at(*index, *cond_match, pt, i) {
                                    let j = choose|j: int|
                                        0 <= j < (ma.any->Keywords_0)@.len() && (#[trigger] (
                                        ma.any->Keywords_0)@[j])@ == vs[i]@;
                                    assert(checker->KeywordAny_keywords == keywords);
                                    assert(checker->KeywordAny_keywords@[j]@ == vs[i]@);
                                    assert(checker.matches_at(pt, i));
                                }
                            },
                            None => {},
                        }
                    }
                }
                Some(checker)
            },
            _ => None,
        },
        (Match::Any(ma), FieldIndex::IntMapIndex(d)) => match &ma.any {
            AnyVariants::Integers(values) => {
                let checker = NestedChecker::IntegerAny { index: d, values };
                proof {
                    assert forall|pt: PointOffsetType, i: int| #[trigger]
                        checker.matches_at(pt, i) == match_accel_at(
                            *index,
                            *cond_match,
                            pt,
                            i,
                        ) by {
                        assert(ma.any == AnyVariants::Integers(*values));
                        match d.spec_values(pt) {
                            Some(vs) => {
                                if checker.matches_at(pt, i) {
                                    let j = choose|j: int|
                                        0 <= j < values@.len() && #[trigger] values@[j] == vs[i];
                                    assert((ma.any->Integers_0)@[j] == vs[i]);
                                    assert(match_accel_at(*index, *cond_match, pt, i));
                                }
                                if match_accel_at(*index, *cond_match, pt, i) {
                                    let j = choose|j: int|
                                        0 <= j < (ma.any->Integers_0)@.len()
                                            && #[trigger] (ma.any->Integers_0)@[j] == vs[i];
                                    assert(checker->IntegerAny_values == values);
                                    assert(checker->IntegerAny_values@[j] == vs[i]);
                                    assert(checker.matches_at(pt, i));
                                }
                            },
                            None => {},
                        }
                    }
                }
                Some(checker)
            },
            _ => None,
        },
        _ => None,
    }
}

/// Builds the index-accelerated checker for a range predicate, or nothing
/// when the index kind is incompatible with it.
pub fn get_nested_range_checkers<'a>(index: &'a FieldIndex, range: &Range) -> (r: Option<
    NestedChecker<'a>,
>)
    ensures
        r is Some <==> range_compatible(*index),
        match r {
            Some(checker) => checker.wf() && forall|pt: PointOffsetType, i: int| #[trigger]
                checker.matches_at(pt, i) == range_accel_at(*index, *range, pt, i),
            None => true,
        },
{
    match index {
        FieldIndex::IntIndex(num_index) => Some(NestedChecker::NumericRange { index: num_index, range: *range }),
        FieldIndex::FloatIndex(num_index) => Some(NestedChecker::NumericRange { index: num_index, range: *range }),
        _ => None,
    }
}

/// Builds the index-accelerated checker for a geo-radius predicate, or
/// nothing when the index kind is incompatible with it.
pub fn get_nested_geo_radius_checkers<'a>(index: &'a FieldIndex, geo_radius: &GeoRadius) -> (r:
    Option<NestedChecker<'a>>)
    ensures
        r is Some <==> geo_compatible(*index),
        match r {
            Some(checker) => checker.wf() && forall|pt: PointOffsetType, i: int| #[trigger]
                checker.matches_at(pt, i) == geo_radius_accel_at(*index, *geo_radius, pt, i),
            None => true,
        },
{
    match index {
        FieldIndex::GeoIndex(geo_index) => Some(NestedChecker::GeoRadiusCheck { index: geo_index, radius: *geo_radius }),
        _ => None,
    }
}

/// Builds the index-accelerated checker for a geo-bounding-box predicate,
/// or nothing when the index kind is incompatible with it.
pub fn get_nested_geo_bounding_box_checkers<'a>(
    index: &'a FieldIndex,
    geo_bounding_box: &GeoBoundingBox,
) -> (r: Option<NestedChecker<'a>>)
    ensures
        r is Some <==> geo_compatible(*index),
        match r {
            Some(checker) => checker.wf() && forall|pt: PointOffsetType, i: int| #[trigger]
                checker.matches_at(pt, i) == geo_bbox_accel_at(*index, *geo_bounding_box, pt, i),
            None => true,
        },
{
    match index {
        FieldIndex::GeoIndex(geo_index) => Some(NestedChecker::GeoBoxCheck { index: geo_index, bbox: *geo_bounding_box }),
        _ => None,
    }
}

/// How many sub-predicates a field condition has configured.
pub open spec fn configured_count(c: FieldCondition) -> int {
    (if c.cond_match is Some { 1int } else { 0int })
    + (if c.range is Some { 1int } else { 0int })
    + (if c.geo_radius is Some { 1int } else { 0int })
    + (if c.geo_bounding_box is Some { 1int } else { 0int })
    + (if c.values_count is Some { 1int } else { 0int })
}

/// Whether an index alone can answer the condition's full OR across
/// sub-predicates: exactly one sub-predicate is configured and the index
/// kind can answer it. A condition with several sub-predicates is never
/// split across paths — partial index acceleration would change the OR —
/// so it falls back wholesale; a values-count predicate always falls back.
pub open spec fn field_condition_acceleratable(index: FieldIndex, c: FieldCondition) -> bool {
    configured_count(c) == 1 && ((match c.cond_match {
        Some(m) => match_compatible(index, m),
        None => false,
    }) || (c.range is Some && range_compatible(index)) || (c.geo_radius is Some && geo_compatible(
        index,
    )) || (c.geo_bounding_box is Some && geo_compatible(index)))
}

/// The index-accelerated positions of a whole field condition, meaningful
/// when the condition is acceleratable on the index.
pub open spec fn field_accel_at(index: FieldIndex, c: FieldCondition, point_id: PointOffsetType, i: int) -> bool {
    match c.cond_match {
        Some(m) => match_accel_at(index, m, point_id, i),
        None => match c.range {
            Some(range) => range_accel_at(index, range, point_id, i),
            None => match c.geo_radius {
                Some(radius) => geo_radius_accel_at(index, radius, point_id, i),
                None => match c.geo_bounding_box {
                    Some(bbox) => geo_bbox_accel_at(index, bbox, point_id, i),
                    None => false,
                },
            },
        },
    }
}

/// Builds the checker answering the whole field condition from this index,
/// or nothing when the index cannot answer the condition's full OR, in
/// which case the dispatcher must fall back.
pub fn nested_field_condition_index<'a>(
    index: &'a FieldIndex,
    field_condition: &'a FieldCondition,
) -> (r: Option<NestedChecker<'a>>)
    ensures
        r is Some <==> field_condition_acceleratable(*index, *field_condition),
        match r {
            Some(checker) => checker.wf() && forall|pt: PointOffsetType, i: int| #[trigger]
                checker.matches_at(pt, i) == field_accel_at(*index, *field_condition, pt, i),
            None => true,
        },
{
    let mut configured: u32 = 0;
    if field_condition.cond_match.is_some() {
        configured = configured + 1;
    }
    if field_condition.range.is_some() {
        configured = configured + 1;
    }
    if field_condition.geo_radius.is_some() {
        configured = configured + 1;
    }
    if field_condition.geo_bounding_box.is_some() {
        configured = configured + 1;
    }
    if field_condition.values_count.is_some() {
        configured = configured + 1;
    }
    if configured != 1 {
        return None;
    }
    match &field_condition.cond_match {
        Some(cond_match) => get_nested_match_checkers(index, cond_match),
        None => match &field_condition.range {
            Some(range) => get_nested_range_checkers(index, range),
            None => match &field_condition.geo_radius {
                Some(geo_radius) => get_nested_geo_radius_checkers(index, geo_radius),
                None => match &field_condition.geo_bounding_box {
                    Some(geo_bounding_box) => get_nested_geo_bounding_box_checkers(
                        index,
                        geo_bounding_box,
                    ),
                    None => None,
                },
            },
        },
    }
}

/// The first index of the list that can answer the whole condition.
pub open spec fn first_acceleratable(indexes: Seq<FieldIndex>, c: FieldCondition) -> Option<
    FieldIndex,
>
    decreases indexes.len(),
{
    if indexes.len() == 0 {
        None::<FieldIndex>
    } else if field_condition_acceleratable(indexes[0], c) {
        Some(indexes[0])
    } else {
        first_acceleratable(indexes.drop_first(), c)
    }
}

proof fn lemma_first_acceleratable_skip(indexes: Seq<FieldIndex>, c: FieldCondition, i: int)
    requires
        0 <= i <= indexes.len(),
        forall|j: int| 0 <= j < i ==> !field_condition_acceleratable(#[trigger] indexes[j], c),
    ensures
        first_acceleratable(indexes, c) == first_acceleratable(indexes.skip(i), c),
    decreases i,
{
    if i > 0 {
        assert(indexes.skip(1) =~= indexes.drop_first());
        lemma_first_acceleratable_skip(indexes.drop_first(), c, i - 1);
        assert(indexes.drop_first().skip(i - 1) =~= indexes.skip(i));
    } else {
        assert(indexes.skip(0) =~= indexes);
    }
}

/// What the dispatched checker for one condition computes, per point and
/// element position: a field condition goes to the first registered index
/// that can answer it whole, and otherwise — like every other nested-valid
/// condition — to the document-scan fallback.
pub open spec fn converter_at(
    condition: Condition,
    entries: Seq<IndexesEntry>,
    provider: PayloadProvider,
    nested: PathModel,
    point_id: PointOffsetType,
    i: int,
) -> bool {
    match condition {
        Condition::Field(fc) => match registry_lookup(entries, spec_add_segment(nested, fc.key@)) {
            Some(indexes) => match first_acceleratable(indexes, fc) {
                Some(idx) => field_accel_at(idx, fc, point_id, i),
                None => condition_positions_contains(
                    condition,
                    provider.spec_payload(point_id),
                    nested,
                    i,
                ),
            },
            None => condition_positions_contains(
                condition,
                provider.spec_payload(point_id),
                nested,
                i,
            ),
        },
        _ => condition_positions_contains(condition, provider.spec_payload(point_id), nested, i),
    }
}

/// The nested checker dispatcher: per condition, picks an
/// index-accelerated checker when an index registered for the full nested
/// path can answer the condition whole, and otherwise builds the fallback
/// document checker. The registry and provider arrive as explicit
/// arguments, never as ambient state.
#[verifier::loop_isolation(false)]
pub fn nested_condition_converter<'a>(
    condition: &'a Condition,
    field_indexes: &'a IndexesMap,
    payload_provider: &'a PayloadProvider,
    nested_path: &'a Path,
) -> (r: NestedChecker<'a>)
    requires
        valid_nested_condition(*condition),
    ensures
        r.wf(),
        forall|pt: PointOffsetType, i: int| #[trigger]
            r.matches_at(pt, i) == converter_at(
                *condition,
                field_indexes.entries@,
                *payload_provider,
                nested_path@,
                pt,
                i,
            ),
{
    match condition {
        Condition::Field(field_condition) => {
            // full path of the condition field
            match field_indexes.get(nested_path, &field_condition.key) {
                Some(indexes) => {
                    let n = indexes.len();
                    let mut j: usize = 0;
                    while j < n
                        invariant
                            0 <= j <= n,
                            forall|m: int|
                                0 <= m < j ==> !field_condition_acceleratable(
                                    #[trigger] indexes@[m],
                                    *field_condition,
                                ),
                        decreases n - j,
                    {
                        match nested_field_condition_index(&indexes[j], field_condition) {
                            Some(checker) => {
                                proof {
                                    lemma_first_acceleratable_skip(
                                        indexes@,
                                        *field_condition,
                                        j as int,
                                    );
                                    assert(indexes@.skip(j as int)[0] == indexes@[j as int]);
                                    assert(first_acceleratable(indexes@, *field_condition) == Some(
                                        indexes@[j as int],
                                    ));
                                }
                                return checker;
                            },
                            None => {},
                        }
                        j += 1;
                    }
                    proof {
                        lemma_first_acceleratable_skip(indexes@, *field_condition, n as int);
                        assert(indexes@.skip(n as int) =~= Seq::<FieldIndex>::empty());
                    }
                    NestedChecker::Fallback {
                        provider: payload_provider,
                        condition,
                        nested_path,
                    }
                },
                None => NestedChecker::Fallback { provider: payload_provider, condition, nested_path },
            }
        },
        _ => NestedChecker::Fallback { provider: payload_provider, condition, nested_path },
    }
}

/// Position `pos` of the point is matched by every checker of the list.
pub open spec fn all_checkers_match_at<'a>(
    checkers: Seq<NestedChecker<'a>>,
    point_id: PointOffsetType,
    pos: usize,
) -> bool {
    forall|k: int|
        0 <= k < checkers.len() ==> (#[trigger] checkers[k]).matches_at(point_id, pos as int)
}

/// The point matches the merged nested condition: some single element
/// position is matched by every checker; no checkers means every point
/// matches.
pub open spec fn checkers_merged_at<'a>(
    checkers: Seq<NestedChecker<'a>>,
    point_id: PointOffsetType,
) -> bool {
    checkers.len() == 0 || exists|pos: usize| #[trigger]
        all_checkers_match_at(checkers, point_id, pos)
}

/// Every checker of the list is well-formed.
pub open spec fn checkers_wf<'a>(checkers: Seq<NestedChecker<'a>>) -> bool {
    forall|k: int| 0 <= k < checkers.len() ==> (#[trigger] checkers[k]).wf()
}

/// Builds one checker per condition of a nested must-list, dispatching
/// each to its index-accelerated or fallback form.
#[verifier::loop_isolation(false)]
pub fn nested_conditions_checkers<'a>(
    conditions: &'a Vec<Condition>,
    field_indexes: &'a IndexesMap,
    payload_provider: &'a PayloadProvider,
    nested_path: &'a Path,
) -> (r: Vec<NestedChecker<'a>>)
    requires
        valid_nested_conditions(conditions@),
    ensures
        r@.len() == conditions@.len(),
        checkers_wf(r@),
        forall|k: int, pt: PointOffsetType, i: int|
            0 <= k < r@.len() ==> ((#[trigger] r@[k].matches_at(pt, i)) == converter_at(
                conditions@[k],
                field_indexes.entries@,
                *payload_provider,
                nested_path@,
                pt,
                i,
            )),
{
    let n = conditions.len();
    let mut checkers: Vec<NestedChecker<'a>> = Vec::new();
    let mut k: usize = 0;
    while k < n
        invariant
            0 <= k <= n,
            checkers@.len() == k,
            checkers_wf(checkers@),
            forall|m: int, pt: PointOffsetType, i: int|
                0 <= m < k ==> ((#[trigger] checkers@[m].matches_at(pt, i)) == converter_at(
                    conditions@[m],
                    field_indexes.entries@,
                    *payload_provider,
                    nested_path@,
                    pt,
                    i,
                )),
        decreases n - k,
    {
        let checker = nested_condition_converter(
            &conditions[k],
            field_indexes,
            payload_provider,
            nested_path,
        );
        checkers.push(checker);
        k += 1;
    }
    checkers
}

/// The upward contract: evaluates the merged nested condition for one
/// point, as a plain boolean checker pluggable into the surrounding filter
/// tree. Every checker is evaluated and the per-condition position lists
/// are merged positionally.
#[verifier::loop_isolation(false)]
pub fn check_nested_checkers(nested_checkers: &Vec<NestedChecker>, point_id: PointOffsetType) -> (r:
    bool)
    requires
        checkers_wf(nested_checkers@),
    ensures
        r == checkers_merged_at(nested_checkers@, point_id),
{
    let n = nested_checkers.len();
    let mut matching_lists: Vec<Vec<usize>> = Vec::new();
    let mut k: usize = 0;
    while k < n
        invariant
            0 <= k <= n,
            matching_lists@.len() == k,
            forall|m: int| 0 <= m < k ==> distinct_positions((#[trigger] matching_lists@[m])@),
            forall|m: int, pos: usize|
                0 <= m < k ==> ((#[trigger] matching_lists@[m]@.contains(pos))
                    <==> nested_checkers@[m].matches_at(point_id, pos as int)),
        decreases n - k,
    {
        let positions = nested_checkers[k].evaluate(point_id);
        proof {
            lemma_strictly_increasing_distinct(positions@);
        }
        matching_lists.push(positions);
        k += 1;
    }
    let merged = merge_nested_matching_indices(&matching_lists);
    proof {
        let lv = lists_view(matching_lists@);
        assert forall|m: int, pos: usize|
            0 <= m < n implies ((#[trigger] lv[m].contains(pos))
            <==> nested_checkers@[m].matches_at(point_id, pos as int)) by {
            assert(lv[m] == matching_lists@[m]@);
        }
        if n == 0 {
            assert(merged);
        } else {
            if merged {
                let pos = choose|pos: usize| #[trigger] all_contain(lv, pos);
                assert forall|m: int|
                    0 <= m < nested_checkers@.len() implies (
                #[trigger] nested_checkers@[m]).matches_at(point_id, pos as int) by {
                    assert(lv[m].contains(pos));
                }
                assert(all_checkers_match_at(nested_checkers@, point_id, pos));
            } else {
                if checkers_merged_at(nested_checkers@, point_id) {
                    let pos = choose|pos: usize| #[trigger]
                        all_checkers_match_at(nested_checkers@, point_id, pos);
                    assert forall|m: int| 0 <= m < lv.len() implies (#[trigger] lv[m]).contains(
                        pos,
                    ) by {
                        assert(nested_checkers@[m].matches_at(point_id, pos as int));
                    }
                    assert(all_contain(lv, pos));
                    assert(merged_matches(lv));
                    assert(false);
                }
            }
        }
    }
    merged
}

} // verus!
