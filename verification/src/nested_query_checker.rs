//! The fallback document checkers: the same position-set contract as the
//! index-accelerated checkers, computed by resolving the field path in the
//! raw payload document, and the must-list evaluation built on them.

use vstd::prelude::*;

use crate::conditions::{
    field_condition_sat, valid_nested_condition, Condition, FieldCondition, Filter,
    IsEmptyCondition, IsNullCondition,
};
use crate::nested_filter::merge_nested_matching_indices;
use crate::path::{
    entry_value, payload_lookup, resolved_at, resolved_count, spec_add_segment, resolve,
    MultiValue, Path, PathModel,
};
use crate::positions::{
    all_contain, distinct_positions, lemma_push_contains, lemma_push_increasing,
    lemma_strictly_increasing_distinct, lists_view, merged_matches, strictly_increasing,
};
use crate::value::{Payload, Value};

verus! {

/// The is-empty rule on one resolved element value: null or an empty array.
/// An absent element placeholder resolves to null, so absence also counts
/// as empty.
pub open spec fn is_empty_sat(v: Value) -> bool {
    match v {
        Value::Null => true,
        Value::Array(elems) => elems@.len() == 0,
        _ => false,
    }
}

/// The is-null rule on one array-crossing element value: null itself, or an
/// array containing at least one null.
pub open spec fn is_null_multi_sat(v: Value) -> bool {
    match v {
        Value::Null => true,
        Value::Array(elems) => exists|j: int| 0 <= j < elems@.len() && elems@[j] is Null,
        _ => false,
    }
}

/// Position `i` matches the field condition under the document semantics:
/// the element exists at the resolved path and some configured
/// sub-predicate accepts its value.
pub open spec fn field_condition_positions_contains(
    c: FieldCondition,
    p: Payload,
    nested: PathModel,
    i: int,
) -> bool {
    let full = spec_add_segment(nested, c.key@);
    0 <= i < resolved_count(p, full) && field_condition_sat(c, resolved_at(p, full, i))
}

/// Position `i` matches the is-empty condition under the document
/// semantics.
pub open spec fn is_empty_positions_contains(
    c: IsEmptyCondition,
    p: Payload,
    nested: PathModel,
    i: int,
) -> bool {
    let full = spec_add_segment(nested, c.is_empty.key@);
    0 <= i < resolved_count(p, full) && is_empty_sat(resolved_at(p, full, i))
}

/// Position `i` matches the is-null condition. On a plain path only
/// position 0 can match: an absent field counts as null there; through an
/// array each element matches by the array-contains-null rule.
pub open spec fn is_null_positions_contains(
    c: IsNullCondition,
    p: Payload,
    nested: PathModel,
    i: int,
) -> bool {
    let full = spec_add_segment(nested, c.is_null.key@);
    match full.suffix {
        None => i == 0 && (match payload_lookup(p, full.keys) {
            Some(v) => v is Null,
            None => true,
        }),
        Some(_) => 0 <= i < resolved_count(p, full) && is_null_multi_sat(resolved_at(p, full, i)),
    }
}

/// Position `i` matches one nested-scope condition under the document
/// semantics; condition kinds invalid in nested scope match nothing.
pub open spec fn condition_positions_contains(
    c: Condition,
    p: Payload,
    nested: PathModel,
    i: int,
) -> bool {
    match c {
        Condition::Field(fc) => field_condition_positions_contains(fc, p, nested, i),
        Condition::IsEmpty(ie) => is_empty_positions_contains(ie, p, nested, i),
        Condition::IsNull(inl) => is_null_positions_contains(inl, p, nested, i),
        _ => false,
    }
}

/// Position `pos` is matched by every condition of the list.
pub open spec fn all_conditions_match_at(
    conds: Seq<Condition>,
    p: Payload,
    nested: PathModel,
    pos: usize,
) -> bool {
    forall|k: int|
        0 <= k < conds.len() ==> condition_positions_contains(#[trigger] conds[k], p, nested, pos as int)
}

/// A nested must-list matches a document when some single element position
/// satisfies every condition; an empty list matches vacuously.
pub open spec fn nested_must_matches(p: Payload, nested: PathModel, conds: Seq<Condition>) -> bool {
    conds.len() == 0 || exists|pos: usize| #[trigger] all_conditions_match_at(conds, p, nested, pos)
}

/// Every condition of the list is valid inside a nested scope.
pub open spec fn valid_nested_conditions(conds: Seq<Condition>) -> bool {
    forall|k: int| 0 <= k < conds.len() ==> valid_nested_condition(#[trigger] conds[k])
}

/// The filter's must-list, if present, holds only nested-valid conditions.
pub open spec fn valid_nested_filter(f: Filter) -> bool {
    match f.must {
        Some(cs) => valid_nested_conditions(cs@),
        None => true,
    }
}

/// What a whole nested filter says of one document: only the `must` group
/// is consumed in nested scope; an absent or empty one matches everything.
pub open spec fn nested_filter_matches(p: Payload, nested: PathModel, f: Filter) -> bool {
    match f.must {
        None => true,
        Some(cs) => nested_must_matches(p, nested, cs@),
    }
}

/// Tests one resolved element value against the is-empty rule.
fn value_is_empty(v: &Value) -> (r: bool)
    ensures
        r == is_empty_sat(*v),
{
    match v {
        Value::Null => true,
        Value::Array(elems) => elems.len() == 0,
        _ => false,
    }
}

/// Tests one resolved element value against the array-crossing is-null
/// rule.
#[verifier::loop_isolation(false)]
fn value_is_null_multi(v: &Value) -> (r: bool)
    ensures
        r == is_null_multi_sat(*v),
{
    match v {
        Value::Null => true,
        Value::Array(elems) => {
            let n = elems.len();
            let mut i: usize = 0;
            while i < n
                invariant
                    0 <= i <= n,
                    forall|j: int| 0 <= j < i ==> !(elems@[j] is Null),
                decreases n - i,
            {
                if matches!(&elems[i], Value::Null) {
                    proof {
                        assert(elems@[i as int] is Null);
                    }
                    return true;
                }
                i += 1;
            }
            false
        },
        _ => false,
    }
}

/// Return the element positions matching the condition in the payload:
/// an element position is included iff at least one of the condition's
/// configured sub-predicates accepts that element's value.
#[verifier::loop_isolation(false)]
pub fn nested_check_field_condition(
    field_condition: &FieldCondition,
    payload: &Payload,
    nested_path: &Path,
) -> (r: Vec<usize>)
    ensures
        strictly_increasing(r@),
        forall|pos: usize| #[trigger]
            r@.contains(pos) <==> field_condition_positions_contains(
                *field_condition,
                *payload,
                nested_path@,
                pos as int,
            ),
{
    let field_values = resolve(payload, nested_path, &field_condition.key);
    let ghost full = spec_add_segment(nested_path@, field_condition.key@);
    let mut matching_indices: Vec<usize> = Vec::new();
    match field_values {
        MultiValue::Single(opt) => {
            match opt {
                Some(v) => {
                    if field_condition.check(v) {
                        matching_indices.push(0);
                        proof {
                            assert(matching_indices@ =~= seq![0usize]);
                            assert forall|pos: usize| #[trigger]
                                matching_indices@.contains(pos)
                                    <==> field_condition_positions_contains(
                                    *field_condition,
                                    *payload,
                                    nested_path@,
                                    pos as int,
                                ) by {
                                if matching_indices@.contains(pos) {
                                    let j = choose|j: int|
                                        0 <= j < matching_indices@.len() && matching_indices@[j]
                                            == pos;
                                    assert(pos == 0);
                                }
                                if field_condition_positions_contains(
                                    *field_condition,
                                    *payload,
                                    nested_path@,
                                    pos as int,
                                ) {
                                    assert(matching_indices@[0] == 0usize);
                                    assert(matching_indices@.contains(0usize));
                                }
                            }
                        }
                    }
                },
                None => {},
            }
        },
        MultiValue::Multiple(entries) => {
            let n = entries.len();
            let mut i: usize = 0;
            while i < n
                invariant
                    0 <= i <= n,
                    strictly_increasing(matching_indices@),
                    forall|j: int|
                        0 <= j < matching_indices@.len() ==> #[trigger] matching_indices@[j] < i,
                    forall|pos: usize|
                        pos < i ==> (matching_indices@.contains(pos)
                            <==> field_condition_positions_contains(
                            *field_condition,
                            *payload,
                            nested_path@,
                            pos as int,
                        )),
                decreases n - i,
            {
                let null_value = Value::Null;
                let matched = match &entries[i] {
                    Some(v) => field_condition.check(v),
                    None => field_condition.check(&null_value),
                };
                proof {
                    assert(matched == field_condition_sat(
                        *field_condition,
                        entry_value(entries@[i as int]),
                    ));
                    lemma_push_contains(matching_indices@, i);
                    lemma_push_increasing(matching_indices@, i);
                }
                if matched {
                    matching_indices.push(i);
                }
                i += 1;
            }
            proof {
                assert forall|pos: usize| #[trigger]
                    matching_indices@.contains(pos)
                        <==> field_condition_positions_contains(
                        *field_condition,
                        *payload,
                        nested_path@,
                        pos as int,
                    ) by {
                    if matching_indices@.contains(pos) {
                        let j = choose|j: int|
                            0 <= j < matching_indices@.len() && matching_indices@[j] == pos;
                        assert(pos < n);
                    }
                    if field_condition_positions_contains(
                        *field_condition,
                        *payload,
                        nested_path@,
                        pos as int,
                    ) {
                        assert(pos < n);
                    }
                }
            }
        },
    }
    matching_indices
}

/// Return the element positions matching the is-empty condition in the
/// payload: positions whose value is null or an empty array.
#[verifier::loop_isolation(false)]
pub fn check_nested_is_empty_condition(
    nested_path: &Path,
    is_empty: &IsEmptyCondition,
    payload: &Payload,
) -> (r: Vec<usize>)
    ensures
        strictly_increasing(r@),
        forall|pos: usize| #[trigger]
            r@.contains(pos) <==> is_empty_positions_contains(
                *is_empty,
                *payload,
                nested_path@,
                pos as int,
            ),
{
    // full nested path
    let field_values = resolve(payload, nested_path, &is_empty.is_empty.key);
    let mut matching_indices: Vec<usize> = Vec::new();
    match field_values {
        MultiValue::Single(opt) => {
            match opt {
                Some(v) => {
                    if value_is_empty(v) {
                        matching_indices.push(0);
                        proof {
                            assert(matching_indices@ =~= seq![0usize]);
                            assert forall|pos: usize| #[trigger]
                                matching_indices@.contains(pos) <==> is_empty_positions_contains(
                                    *is_empty,
                                    *payload,
                                    nested_path@,
                                    pos as int,
                                ) by {
                                if matching_indices@.contains(pos) {
                                    let j = choose|j: int|
                                        0 <= j < matching_indices@.len() && matching_indices@[j]
                                            == pos;
                                    assert(pos == 0);
                                }
                                if is_empty_positions_contains(
                                    *is_empty,
                                    *payload,
                                    nested_path@,
                                    pos as int,
                                ) {
                                    assert(matching_indices@[0] == 0usize);
                                    assert(matching_indices@.contains(0usize));
                                }
                            }
                        }
                    }
                },
                None => {},
            }
        },
        MultiValue::Multiple(entries) => {
            let n = entries.len();
            let mut i: usize = 0;
            while i < n
                invariant
                    0 <= i <= n,
                    strictly_increasing(matching_indices@),
                    forall|j: int|
                        0 <= j < matching_indices@.len() ==> #[trigger] matching_indices@[j] < i,
                    forall|pos: usize|
                        pos < i ==> (matching_indices@.contains(pos)
                            <==> is_empty_positions_contains(
                            *is_empty,
                            *payload,
                            nested_path@,
                            pos as int,
                        )),
                decreases n - i,
            {
                let null_value = Value::Null;
                let matched = match &entries[i] {
                    Some(v) => value_is_empty(v),
                    None => value_is_empty(&null_value),
                };
                proof {
                    assert(matched == is_empty_sat(entry_value(entries@[i as int])));
                    lemma_push_contains(matching_indices@, i);
                    lemma_push_increasing(matching_indices@, i);
                }
                if matched {
                    matching_indices.push(i);
                }
                i += 1;
            }
            proof {
                assert forall|pos: usize| #[trigger]
                    matching_indices@.contains(pos)
                        <==> is_empty_positions_contains(
                        *is_empty,
                        *payload,
                        nested_path@,
                        pos as int,
                    ) by {
                    if matching_indices@.contains(pos) {
                        let j = choose|j: int|
                            0 <= j < matching_indices@.len() && matching_indices@[j] == pos;
                        assert(pos < n);
                    }
                    if is_empty_positions_contains(
                        *is_empty,
                        *payload,
                        nested_path@,
                        pos as int,
                    ) {
                        assert(pos < n);
                    }
                }
            }
        },
    }
    matching_indices
}

/// Return the element positions matching the is-null condition in the
/// payload. On a plain path, an absent field reports position 0 (absence
/// counts as null); through an array, an element matches when it is null
/// or an array containing a null.
#[verifier::loop_isolation(false)]
pub fn check_nested_is_null_condition(
    nested_path: &Path,
    is_null: &IsNullCondition,
    payload: &Payload,
) -> (r: Vec<usize>)
    ensures
        strictly_increasing(r@),
        forall|pos: usize| #[trigger]
            r@.contains(pos) <==> is_null_positions_contains(
                *is_null,
                *payload,
                nested_path@,
                pos as int,
            ),
{
    // full nested path
    let field_values = resolve(payload, nested_path, &is_null.is_null.key);
    let mut matching_indices: Vec<usize> = Vec::new();
    match field_values {
        MultiValue::Single(opt) => {
            let absent_or_null = match opt {
                Some(v) => matches!(v, Value::Null),
                None => true,
            };
            if absent_or_null {
                matching_indices.push(0);
            }
            proof {
                assert forall|pos: usize| #[trigger]
                    matching_indices@.contains(pos) <==> is_null_positions_contains(
                        *is_null,
                        *payload,
                        nested_path@,
                        pos as int,
                    ) by {
                    if matching_indices@.contains(pos) {
                        let j = choose|j: int|
                            0 <= j < matching_indices@.len() && matching_indices@[j] == pos;
                        assert(pos == 0);
                    }
                    if is_null_positions_contains(*is_null, *payload, nested_path@, pos as int) {
                        assert(absent_or_null);
                        assert(matching_indices@[0] == 0usize);
                        assert(matching_indices@.contains(0usize));
                    }
                }
            }
        },
        MultiValue::Multiple(entries) => {
            let n = entries.len();
            let mut i: usize = 0;
            while i < n
                invariant
                    0 <= i <= n,
                    strictly_increasing(matching_indices@),
                    forall|j: int|
                        0 <= j < matching_indices@.len() ==> #[trigger] matching_indices@[j] < i,
                    forall|pos: usize|
                        pos < i ==> (matching_indices@.contains(pos)
                            <==> is_null_positions_contains(
                            *is_null,
                            *payload,
                            nested_path@,
                            pos as int,
                        )),
                decreases n - i,
            {
                let null_value = Value::Null;
                let matched = match &entries[i] {
                    Some(v) => value_is_null_multi(v),
                    None => value_is_null_multi(&null_value),
                };
                proof {
                    assert(matched == is_null_multi_sat(entry_value(entries@[i as int])));
                    lemma_push_contains(matching_indices@, i);
                    lemma_push_increasing(matching_indices@, i);
                }
                if matched {
                    matching_indices.push(i);
                }
                i += 1;
            }
            proof {
                assert forall|pos: usize| #[trigger]
                    matching_indices@.contains(pos)
                        <==> is_null_positions_contains(
                        *is_null,
                        *payload,
                        nested_path@,
                        pos as int,
                    ) by {
                    if matching_indices@.contains(pos) {
                        let j = choose|j: int|
                            0 <= j < matching_indices@.len() && matching_indices@[j] == pos;
                        assert(pos < n);
                    }
                    if is_null_positions_contains(*is_null, *payload, nested_path@, pos as int) {
                        assert(pos < n);
                    }
                }
            }
        },
    }
    matching_indices
}

/// Return the element positions matching one nested-scope condition under
/// the document semantics.
pub fn nested_condition_matching_positions(
    condition: &Condition,
    payload: &Payload,
    nested_path: &Path,
) -> (r: Vec<usize>)
    requires
        valid_nested_condition(*condition),
    ensures
        strictly_increasing(r@),
        forall|pos: usize| #[trigger]
            r@.contains(pos) <==> condition_positions_contains(
                *condition,
                *payload,
                nested_path@,
                pos as int,
            ),
{
    match condition {
        Condition::Field(field_condition) => nested_check_field_condition(
            field_condition,
            payload,
            nested_path,
        ),
        Condition::IsEmpty(is_empty) => check_nested_is_empty_condition(
            nested_path,
            is_empty,
            payload,
        ),
        Condition::IsNull(is_null) => check_nested_is_null_condition(
            nested_path,
            is_null,
            payload,
        ),
        _ => Vec::new(),
    }
}

/// Decides a nested must-list against one document: every condition's
/// matching positions are gathered and merged positionally; an absent or
/// empty list matches everything.
#[verifier::loop_isolation(false)]
pub fn check_all_nested_conditions(
    payload: &Payload,
    nested_path: &Path,
    must: &Option<Vec<Condition>>,
) -> (r: bool)
    requires
        match must {
            Some(cs) => valid_nested_conditions(cs@),
            None => true,
        },
    ensures
        r == match must {
            None => true,
            Some(cs) => nested_must_matches(*payload, nested_path@, cs@),
        },
{
    match must {
        None => true,
        Some(conditions) => {
            let condition_count = conditions.len();
            let mut matching_lists: Vec<Vec<usize>> = Vec::new();
            let mut k: usize = 0;
            while k < condition_count
                invariant
                    0 <= k <= condition_count,
                    matching_lists@.len() == k,
                    forall|m: int|
                        0 <= m < k ==> distinct_positions((#[trigger] matching_lists@[m])@),
                    forall|m: int, pos: usize|
                        0 <= m < k ==> ((#[trigger] matching_lists@[m]@.contains(pos))
                            <==> condition_positions_contains(
                            conditions@[m],
                            *payload,
                            nested_path@,
                            pos as int,
                        )),
                decreases condition_count - k,
            {
                let positions = nested_condition_matching_positions(
                    &conditions[k],
                    payload,
                    nested_path,
                );
                proof {
                    lemma_strictly_increasing_distinct(positions@);
                }
                matching_lists.push(positions);
                k += 1;
            }
            let merged = merge_nested_matching_indices(&matching_lists);
            proof {
                let lv = lists_view(matching_lists@);
                assert forall|m: int, pos: usize|
                    0 <= m < condition_count implies ((#[trigger] lv[m].contains(pos))
                    <==> condition_positions_contains(
                    conditions@[m],
                    *payload,
                    nested_path@,
                    pos as int,
                )) by {
                    assert(lv[m] == matching_lists@[m]@);
                }
                if condition_count == 0 {
                    assert(merged);
                    assert(nested_must_matches(*payload, nested_path@, conditions@));
                } else {
                    if merged {
                        let pos = choose|pos: usize| #[trigger] all_contain(lv, pos);
                        assert forall|m: int|
                            0 <= m < conditions@.len() implies condition_positions_contains(
                            #[trigger] conditions@[m],
                            *payload,
                            nested_path@,
                            pos as int,
                        ) by {
                            assert(lv[m].contains(pos));
                        }
                        assert(all_conditions_match_at(conditions@, *payload, nested_path@, pos));
                        assert(nested_must_matches(*payload, nested_path@, conditions@));
                    } else {
                        if nested_must_matches(*payload, nested_path@, conditions@) {
                            let pos = choose|pos: usize| #[trigger]
                                all_conditions_match_at(conditions@, *payload, nested_path@, pos);
                            assert forall|m: int| 0 <= m < lv.len() implies (
                            #[trigger] lv[m]).contains(pos) by {
                                assert(condition_positions_contains(
                                    conditions@[m],
                                    *payload,
                                    nested_path@,
                                    pos as int,
                                ));
                            }
                            assert(all_contain(lv, pos));
                            assert(merged_matches(lv));
                            assert(false);
                        }
                    }
                }
            }
            merged
        },
    }
}

/// Decides a nested filter against one document. Only `must` conditions
/// are consumed in nested scope; `should` and `must_not` are a declared
/// limitation here, not silently ignored by the outer evaluator.
pub fn nested_filter_checker(
    nested_path: &Path,
    payload: &Payload,
    nested_filter: &Filter,
) -> (r: bool)
    requires
        valid_nested_filter(*nested_filter),
    ensures
        r == nested_filter_matches(*payload, nested_path@, *nested_filter),
{
    check_all_nested_conditions(payload, nested_path, &nested_filter.must)
}

/// Decides a nested filter against the document of one point, as handed
/// over by the payload access provider.
pub fn check_nested_filter(
    nested_path: &Path,
    nested_filter: &Filter,
    payload: &Payload,
) -> (r: bool)
    requires
        valid_nested_filter(*nested_filter),
    ensures
        r == nested_filter_matches(*payload, nested_path@, *nested_filter),
{
    nested_filter_checker(nested_path, payload, nested_filter)
}

} // verus!
