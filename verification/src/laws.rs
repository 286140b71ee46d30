//! The library's stated laws, proved over the same spec functions its
//! contracts use: vacuous truth of an empty must-list, the positional AND
//! of the merge, the OR across a field condition's sub-predicates,
//! absence-as-null, the is-empty/is-null split on arrays, and the
//! agreement of the index-accelerated path with the document-scan
//! fallback over an index built from the same data.

use vstd::prelude::*;

use crate::conditions::{
    bbox_check, field_condition_sat, geo_radius_check, match_check, match_sat, range_check,
    spec_geo_parts, values_count_check, FieldCondition, Filter, IsNullCondition, Match, MatchText,
};
use crate::conditions::Condition;
use crate::index::{registry_lookup, FieldIndex, IndexesEntry, PayloadProvider, PerPointValues, PointOffsetType};
use crate::nested_filter::{
    converter_at, field_accel_at, field_condition_acceleratable, first_acceleratable,
    match_accel_at,
};
use crate::nested_query_checker::{
    condition_positions_contains, field_condition_positions_contains, is_empty_sat,
    is_null_multi_sat, is_null_positions_contains, nested_filter_matches,
};
use crate::path::{
    payload_lookup, resolved_at, resolved_count, spec_add_segment, PathModel,
};
use crate::positions::{all_contain, merged_matches};
use crate::text::{tokens_of, views_of};
use crate::value::{Payload, Value};

verus! {

/// Vacuous truth: a nested filter whose must-list is absent or empty
/// matches every document unconditionally.
pub proof fn lemma_vacuous_truth(p: Payload, nested: PathModel, f: Filter)
    requires
        match f.must {
            None => true,
            Some(cs) => cs@.len() == 0,
        },
    ensures
        nested_filter_matches(p, nested, f),
{
}

/// AND across positions: with at least one condition, the merged result
/// holds exactly when some position lies in every per-condition set, and
/// one empty set alone forces a non-match.
pub proof fn lemma_merge_intersection(lists: Seq<Seq<usize>>)
    requires
        lists.len() > 0,
    ensures
        merged_matches(lists) <==> exists|pos: usize| #[trigger] all_contain(lists, pos),
        (exists|k: int| 0 <= k < lists.len() && (#[trigger] lists[k]).len() == 0)
            ==> !merged_matches(lists),
{
    if exists|k: int| 0 <= k < lists.len() && (#[trigger] lists[k]).len() == 0 {
        let k = choose|k: int| 0 <= k < lists.len() && (#[trigger] lists[k]).len() == 0;
        if merged_matches(lists) {
            let pos = choose|pos: usize| #[trigger] all_contain(lists, pos);
            assert(lists[k].contains(pos));
            assert(false);
        }
    }
}

/// OR across sub-predicates: a field condition with several configured
/// sub-predicates accepts an element value as soon as any one of them
/// alone accepts it.
pub proof fn lemma_field_condition_or(c: FieldCondition, v: Value)
    ensures
        (match c.cond_match {
            Some(m) => match_check(m, v),
            None => false,
        }) ==> field_condition_sat(c, v),
        (match c.range {
            Some(r) => range_check(r, v),
            None => false,
        }) ==> field_condition_sat(c, v),
        (match c.geo_radius {
            Some(g) => geo_radius_check(g, v),
            None => false,
        }) ==> field_condition_sat(c, v),
        (match c.geo_bounding_box {
            Some(b) => bbox_check(b, v),
            None => false,
        }) ==> field_condition_sat(c, v),
        (match c.values_count {
            Some(vc) => values_count_check(vc, v),
            None => false,
        }) ==> field_condition_sat(c, v),
{
}

/// Absence as null, single resolution: a document missing the target
/// field reports exactly the same is-null positions as one carrying an
/// explicit null there.
pub proof fn lemma_is_null_absence(
    c: IsNullCondition,
    missing: Payload,
    explicit_null: Payload,
    nested: PathModel,
)
    requires
        spec_add_segment(nested, c.is_null.key@).suffix is None,
        payload_lookup(missing, spec_add_segment(nested, c.is_null.key@).keys) is None,
        payload_lookup(explicit_null, spec_add_segment(nested, c.is_null.key@).keys) == Some(
            Value::Null,
        ),
    ensures
        forall|i: int|
            is_null_positions_contains(c, missing, nested, i) == is_null_positions_contains(
                c,
                explicit_null,
                nested,
                i,
            ),
{
}

/// Is-empty against is-null on arrays: an empty array is empty and not
/// null-bearing; a nonempty array is never empty, even when every member
/// is null — those members answer only to the is-null rule.
pub proof fn lemma_is_empty_arrays(elems: Vec<Value>)
    ensures
        is_empty_sat(Value::Array(elems)) <==> elems@.len() == 0,
        elems@.len() > 0 ==> !is_empty_sat(Value::Array(elems)),
        (elems@.len() > 0 && (forall|j: int| 0 <= j < elems@.len() ==> elems@[j] is Null))
            ==> is_null_multi_sat(Value::Array(elems)),
{
    if elems@.len() > 0 && (forall|j: int| 0 <= j < elems@.len() ==> elems@[j] is Null) {
        assert(elems@[0] is Null);
    }
}

/// The index was built over the same data the document carries at the
/// full nested path, for one point: the stored value sequence lines up
/// one-to-one with the resolved element values, each a scalar of the
/// index's kind, and a point absent from the index resolves to no
/// elements at all.
pub open spec fn index_reflects_payload(
    index: FieldIndex,
    p: Payload,
    nested: PathModel,
    key: Seq<char>,
    point_id: PointOffsetType,
) -> bool {
    let full = spec_add_segment(nested, key);
    match index {
        FieldIndex::KeywordIndex(d) => match d.spec_values(point_id) {
            Some(vs) => vs.len() == resolved_count(p, full) && (forall|i: int|
                0 <= i < vs.len() ==> resolved_at(p, full, i) == Value::Text(#[trigger] vs[i])),
            None => resolved_count(p, full) == 0,
        },
        FieldIndex::IntMapIndex(d) => match d.spec_values(point_id) {
            Some(vs) => vs.len() == resolved_count(p, full) && (forall|i: int|
                0 <= i < vs.len() ==> resolved_at(p, full, i) == Value::Number(#[trigger] vs[i])),
            None => resolved_count(p, full) == 0,
        },
        FieldIndex::IntIndex(d) => match d.spec_values(point_id) {
            Some(vs) => vs.len() == resolved_count(p, full) && (forall|i: int|
                0 <= i < vs.len() ==> resolved_at(p, full, i) == Value::Number(#[trigger] vs[i])),
            None => resolved_count(p, full) == 0,
        },
        FieldIndex::FloatIndex(d) => match d.spec_values(point_id) {
            Some(vs) => vs.len() == resolved_count(p, full) && (forall|i: int|
                0 <= i < vs.len() ==> resolved_at(p, full, i) == Value::Number(#[trigger] vs[i])),
            None => resolved_count(p, full) == 0,
        },
        FieldIndex::GeoIndex(d) => match d.spec_values(point_id) {
            Some(vs) => vs.len() == resolved_count(p, full) && (forall|i: int|
                0 <= i < vs.len() ==> spec_geo_parts(resolved_at(p, full, i)) == Some(
                    ((#[trigger] vs[i]).lon, vs[i].lat),
                )),
            None => resolved_count(p, full) == 0,
        },
        FieldIndex::FullTextIndex(_) => false,
    }
}

/// Index/fallback equivalence: over an index built from the same data,
/// the index-accelerated checker and the document-scan fallback report
/// exactly the same element positions, for every point and position. The
/// full-text kind is excluded: its index cannot attribute a match to an
/// element position, so the two paths agree only on singleton data.
pub proof fn lemma_index_fallback_equivalence(
    index: FieldIndex,
    fc: FieldCondition,
    p: Payload,
    nested: PathModel,
    point_id: PointOffsetType,
    i: int,
)
    requires
        field_condition_acceleratable(index, fc),
        !(index is FullTextIndex),
        index_reflects_payload(index, p, nested, fc.key@, point_id),
    ensures
        field_accel_at(index, fc, point_id, i) == field_condition_positions_contains(
            fc,
            p,
            nested,
            i,
        ),
{
    let full = spec_add_segment(nested, fc.key@);
    match index {
        FieldIndex::KeywordIndex(d) => {
            match d.spec_values(point_id) {
                Some(vs) => {
                    if 0 <= i < vs.len() {
                        let v = resolved_at(p, full, i);
                        assert(v == Value::Text(vs[i]));
                        assert(field_accel_at(index, fc, point_id, i) == field_condition_sat(
                            fc,
                            v,
                        ));
                    }
                },
                None => {},
            }
        },
        FieldIndex::IntMapIndex(d) => {
            match d.spec_values(point_id) {
                Some(vs) => {
                    if 0 <= i < vs.len() {
                        let v = resolved_at(p, full, i);
                        assert(v == Value::Number(vs[i]));
                        assert(field_accel_at(index, fc, point_id, i) == field_condition_sat(
                            fc,
                            v,
                        ));
                    }
                },
                None => {},
            }
        },
        FieldIndex::IntIndex(d) => {
            match d.spec_values(point_id) {
                Some(vs) => {
                    if 0 <= i < vs.len() {
                        let v = resolved_at(p, full, i);
                        assert(v == Value::Number(vs[i]));
                        assert(field_accel_at(index, fc, point_id, i) == field_condition_sat(
                            fc,
                            v,
                        ));
                    }
                },
                None => {},
            }
        },
        FieldIndex::FloatIndex(d) => {
            match d.spec_values(point_id) {
                Some(vs) => {
                    if 0 <= i < vs.len() {
                        let v = resolved_at(p, full, i);
                        assert(v == Value::Number(vs[i]));
                        assert(field_accel_at(index, fc, point_id, i) == field_condition_sat(
                            fc,
                            v,
                        ));
                    }
                },
                None => {},
            }
        },
        FieldIndex::GeoIndex(d) => {
            match d.spec_values(point_id) {
                Some(vs) => {
                    if 0 <= i < vs.len() {
                        let v = resolved_at(p, full, i);
                        assert(spec_geo_parts(v) == Some((vs[i].lon, vs[i].lat)));
                        assert(!(v is Array));
                        assert(field_accel_at(index, fc, point_id, i) == field_condition_sat(
                            fc,
                            v,
                        ));
                    }
                },
                None => {},
            }
        },
        FieldIndex::FullTextIndex(_) => {},
    }
}

/// The full-text remainder of the equivalence: on singleton data — one
/// resolved text element whose tokens are exactly the indexed document —
/// the position-0 policy of the text checker agrees with the fallback.
pub proof fn lemma_text_index_fallback_singleton(
    d: PerPointValues<String>,
    mt: MatchText,
    fc: FieldCondition,
    p: Payload,
    nested: PathModel,
    point_id: PointOffsetType,
    text: String,
    doc: Seq<String>,
)
    requires
        fc.cond_match == Some(Match::Text(mt)),
        fc.range is None && fc.geo_radius is None && fc.geo_bounding_box is None
            && fc.values_count is None,
        d.spec_values(point_id) == Some(doc),
        resolved_count(p, spec_add_segment(nested, fc.key@)) == 1,
        resolved_at(p, spec_add_segment(nested, fc.key@), 0) == Value::Text(text),
        views_of(doc) == tokens_of(text@),
    ensures
        forall|i: int|
            match_accel_at(FieldIndex::FullTextIndex(d), Match::Text(mt), point_id, i)
                == field_condition_positions_contains(fc, p, nested, i),
{
    let full = spec_add_segment(nested, fc.key@);
    assert forall|i: int|
        match_accel_at(FieldIndex::FullTextIndex(d), Match::Text(mt), point_id, i)
            == field_condition_positions_contains(fc, p, nested, i) by {
        if i == 0 {
            let v = resolved_at(p, full, 0);
            assert(v == Value::Text(text));
            assert(field_condition_sat(fc, v) == match_sat(Match::Text(mt), v));
        }
    }
}


/// An index the dispatcher settles on can answer its condition whole.
proof fn lemma_first_acceleratable_is_acceleratable(indexes: Seq<FieldIndex>, c: FieldCondition)
    ensures
        match first_acceleratable(indexes, c) {
            Some(idx) => field_condition_acceleratable(idx, c),
            None => true,
        },
    decreases indexes.len(),
{
    if indexes.len() > 0 && !field_condition_acceleratable(indexes[0], c) {
        lemma_first_acceleratable_is_acceleratable(indexes.drop_first(), c);
    }
}

/// The two evaluation paths agree as dispatched: whatever checker the
/// dispatcher settles on for a field condition — index-accelerated or
/// fallback — it reports exactly the document semantics of the condition,
/// provided the index it may pick is not the full-text kind and reflects
/// the point's document.
pub proof fn lemma_dispatch_agrees_with_documents(
    fc: FieldCondition,
    entries: Seq<IndexesEntry>,
    provider: PayloadProvider,
    nested: PathModel,
    point_id: PointOffsetType,
    i: int,
)
    requires
        match registry_lookup(entries, spec_add_segment(nested, fc.key@)) {
            Some(indexes) => match first_acceleratable(indexes, fc) {
                Some(idx) => !(idx is FullTextIndex) && index_reflects_payload(
                    idx,
                    provider.spec_payload(point_id),
                    nested,
                    fc.key@,
                    point_id,
                ),
                None => true,
            },
            None => true,
        },
    ensures
        converter_at(Condition::Field(fc), entries, provider, nested, point_id, i)
            == condition_positions_contains(
            Condition::Field(fc),
            provider.spec_payload(point_id),
            nested,
            i,
        ),
{
    match registry_lookup(entries, spec_add_segment(nested, fc.key@)) {
        Some(indexes) => {
            lemma_first_acceleratable_is_acceleratable(indexes, fc);
            match first_acceleratable(indexes, fc) {
                Some(idx) => {
                    lemma_index_fallback_equivalence(
                        idx,
                        fc,
                        provider.spec_payload(point_id),
                        nested,
                        point_id,
                        i,
                    );
                },
                None => {},
            }
        },
        None => {},
    }
}

/// With no index registered at all, every dispatched checker is the
/// document-scan fallback itself.
pub proof fn lemma_no_registry_means_fallback(
    c: Condition,
    provider: PayloadProvider,
    nested: PathModel,
    point_id: PointOffsetType,
    i: int,
)
    ensures
        converter_at(c, Seq::<IndexesEntry>::empty(), provider, nested, point_id, i)
            == condition_positions_contains(c, provider.spec_payload(point_id), nested, i),
{
}

} // verus!
