//! The index-accelerated checkers, the dispatcher, and the agreement of
//! the index path with the document-scan fallback over indexes built from
//! the same data.

use nested_filtering::conditions::{
    AnyVariants, Condition, FieldCondition, Filter, GeoBoundingBox, GeoPoint, GeoRadius, Match,
    MatchAny, MatchText, MatchValue, Range, ValueVariants, ValuesCount,
};
use nested_filtering::index::{
    FieldIndex, IndexesEntry, IndexesMap, PayloadProvider, PerPointValues,
};
use nested_filtering::nested_filter::{
    check_nested_checkers, get_nested_geo_bounding_box_checkers, get_nested_geo_radius_checkers,
    get_nested_match_checkers, get_nested_range_checkers, nested_condition_converter,
    nested_conditions_checkers, nested_field_condition_index,
};
use nested_filtering::nested_query_checker::nested_check_field_condition;
use nested_filtering::path::Path;
use nested_filtering::value::{Payload, Value};

fn s(text: &str) -> String {
    text.to_string()
}

fn field(key: &str, value: Value) -> (String, Value) {
    (s(key), value)
}

fn cities_path() -> Path {
    Path { keys: vec![s("country"), s("cities")], nested: Some(vec![]) }
}

/// One payload whose cities carry the same populations the float index
/// stores, so index and fallback answer over the same data.
fn population_payload(populations: &[i64]) -> Payload {
    let cities: Vec<Value> = populations
        .iter()
        .map(|p| Value::Object(vec![field("population", Value::Number(*p))]))
        .collect();
    Payload {
        fields: vec![field(
            "country",
            Value::Object(vec![field("cities", Value::Array(cities))]),
        )],
    }
}

#[test]
fn keyword_match_checker_positions() {
    let index = FieldIndex::KeywordIndex(PerPointValues {
        values: vec![Some(vec![s("red"), s("blue"), s("red")]), None],
    });
    let target = Match::Value(MatchValue { value: ValueVariants::Keyword(s("red")) });
    let checker = get_nested_match_checkers(&index, &target).unwrap();
    assert_eq!(checker.evaluate(0), vec![0, 2]);
    // a point with no indexed value contributes no matches
    assert_eq!(checker.evaluate(1), Vec::<usize>::new());
    // a point beyond the stored range contributes no matches
    assert_eq!(checker.evaluate(7), Vec::<usize>::new());
}

#[test]
fn keyword_any_checker_positions() {
    let index = FieldIndex::KeywordIndex(PerPointValues {
        values: vec![Some(vec![s("a"), s("b"), s("c"), s("d")])],
    });
    let target = Match::Any(MatchAny { any: AnyVariants::Keywords(vec![s("b"), s("d")]) });
    let checker = get_nested_match_checkers(&index, &target).unwrap();
    assert_eq!(checker.evaluate(0), vec![1, 3]);
}

#[test]
fn integer_match_and_any_checker_positions() {
    let index = FieldIndex::IntMapIndex(PerPointValues {
        values: vec![Some(vec![4, 8, 4, 16])],
    });
    let eq_four = Match::Value(MatchValue { value: ValueVariants::Integer(4) });
    let checker = get_nested_match_checkers(&index, &eq_four).unwrap();
    assert_eq!(checker.evaluate(0), vec![0, 2]);

    let any = Match::Any(MatchAny { any: AnyVariants::Integers(vec![8, 16]) });
    let checker = get_nested_match_checkers(&index, &any).unwrap();
    assert_eq!(checker.evaluate(0), vec![1, 3]);
}

#[test]
fn range_checker_positions_honour_every_set_bound() {
    let index = FieldIndex::IntIndex(PerPointValues { values: vec![Some(vec![1, 5, 10, 12])] });
    let range = Range { lt: None, gt: Some(2), gte: None, lte: Some(10) };
    let checker = get_nested_range_checkers(&index, &range).unwrap();
    assert_eq!(checker.evaluate(0), vec![1, 2]);
}

#[test]
fn geo_checkers_positions() {
    let index = FieldIndex::GeoIndex(PerPointValues {
        values: vec![Some(vec![
            GeoPoint { lon: 0, lat: 0 },
            GeoPoint { lon: 500, lat: 0 },
            GeoPoint { lon: 5_000, lat: 5_000 },
        ])],
    });
    let radius = GeoRadius { center: GeoPoint { lon: 0, lat: 0 }, radius: 1_000 };
    let checker = get_nested_geo_radius_checkers(&index, &radius).unwrap();
    assert_eq!(checker.evaluate(0), vec![0, 1]);

    let bbox = GeoBoundingBox {
        top_left: GeoPoint { lon: -100, lat: 100 },
        bottom_right: GeoPoint { lon: 600, lat: -100 },
    };
    let checker = get_nested_geo_bounding_box_checkers(&index, &bbox).unwrap();
    assert_eq!(checker.evaluate(0), vec![0, 1]);
}

#[test]
fn full_text_checker_reports_position_zero_policy() {
    // the text index cannot attribute a match inside a nested array, so
    // any match counts uniformly as position 0
    let index = FieldIndex::FullTextIndex(PerPointValues {
        values: vec![
            Some(vec![s("tokyo"), s("tower"), s("skytree")]),
            Some(vec![s("osaka"), s("castle")]),
        ],
    });
    let query = Match::Text(MatchText { text: s("tokyo tower") });
    let checker = get_nested_match_checkers(&index, &query).unwrap();
    assert_eq!(checker.evaluate(0), vec![0]);
    assert_eq!(checker.evaluate(1), Vec::<usize>::new());
}

#[test]
fn incompatible_predicate_index_pairing_yields_no_checker() {
    // a numeric range against a keyword index is not acceptable: the
    // dispatcher must fall back, not error
    let keyword_index = FieldIndex::KeywordIndex(PerPointValues { values: vec![] });
    let range = Range { lt: None, gt: Some(1), gte: None, lte: None };
    assert!(get_nested_range_checkers(&keyword_index, &range).is_none());

    let geo = GeoRadius { center: GeoPoint { lon: 0, lat: 0 }, radius: 1 };
    assert!(get_nested_geo_radius_checkers(&keyword_index, &geo).is_none());

    let int_index = FieldIndex::IntIndex(PerPointValues { values: vec![] });
    let keyword = Match::Value(MatchValue { value: ValueVariants::Keyword(s("x")) });
    assert!(get_nested_match_checkers(&int_index, &keyword).is_none());
}

#[test]
fn multi_predicate_condition_is_never_partially_accelerated() {
    // a condition with a range and a values-count sub-predicate keeps its
    // OR only through the fallback: no index may answer half of it
    let index = FieldIndex::IntIndex(PerPointValues { values: vec![Some(vec![1, 2])] });
    let condition = FieldCondition {
        key: s("population"),
        cond_match: None,
        range: Some(Range { lt: None, gt: Some(1), gte: None, lte: None }),
        geo_radius: None,
        geo_bounding_box: None,
        values_count: Some(ValuesCount { lt: None, gt: None, gte: Some(1), lte: None }),
    };
    assert!(nested_field_condition_index(&index, &condition).is_none());

    let single = FieldCondition::new_range(
        s("population"),
        Range { lt: None, gt: Some(1), gte: None, lte: None },
    );
    assert!(nested_field_condition_index(&index, &single).is_some());
}

#[test]
fn index_and_fallback_agree_on_same_data() {
    // the float-range index stores exactly the populations the documents
    // carry, so both evaluation paths must report identical position sets
    let populations = [vec![3_700_000i64, 1_500_000, 1_800_000], vec![13_500_000, 2_700_000]];
    let payloads: Vec<Payload> =
        populations.iter().map(|p| population_payload(p)).collect();
    let index = FieldIndex::FloatIndex(PerPointValues {
        values: populations.iter().map(|p| Some(p.clone())).collect(),
    });
    let condition = FieldCondition::new_range(
        s("population"),
        Range { lt: None, gt: Some(1_600_000), gte: None, lte: None },
    );
    let checker = nested_field_condition_index(&index, &condition).unwrap();
    let path = cities_path();
    for (point, payload) in payloads.iter().enumerate() {
        let accelerated = checker.evaluate(point as u32);
        let fallback = nested_check_field_condition(&condition, payload, &path);
        assert_eq!(accelerated, fallback);
    }
}

#[test]
fn converter_dispatches_to_index_and_fallback() {
    let populations = [vec![3_700_000i64, 1_500_000, 1_800_000], vec![13_500_000, 2_700_000], vec![0]];
    let payloads: Vec<Payload> =
        populations.iter().map(|p| population_payload(p)).collect();
    let provider = PayloadProvider::new(payloads);
    let index = FieldIndex::FloatIndex(PerPointValues {
        values: populations.iter().map(|p| Some(p.clone())).collect(),
    });
    let registry = IndexesMap {
        entries: vec![IndexesEntry {
            path: Path {
                keys: vec![s("country"), s("cities")],
                nested: Some(vec![s("population")]),
            },
            indexes: vec![index],
        }],
    };
    let path = cities_path();
    let condition = Condition::Field(FieldCondition::new_range(
        s("population"),
        Range { lt: None, gt: Some(8_000_000), gte: None, lte: None },
    ));

    // through the registry the condition is answered by the index
    let checker = nested_condition_converter(&condition, &registry, &provider, &path);
    assert_eq!(checker.evaluate(0), Vec::<usize>::new());
    assert_eq!(checker.evaluate(1), vec![0]);
    assert_eq!(checker.evaluate(2), Vec::<usize>::new());

    // without a registered index the same condition falls back to the
    // documents and reports the same positions
    let empty_registry = IndexesMap { entries: vec![] };
    let fallback = nested_condition_converter(&condition, &empty_registry, &provider, &path);
    assert_eq!(fallback.evaluate(0), Vec::<usize>::new());
    assert_eq!(fallback.evaluate(1), vec![0]);
    assert_eq!(fallback.evaluate(2), Vec::<usize>::new());
}

#[test]
fn merged_checkers_correlate_positions_per_point() {
    // two conditions on the same array: population in a band, and a
    // keyword tag; only a point with one element satisfying both matches
    let payloads = vec![
        Payload {
            fields: vec![field(
                "country",
                Value::Object(vec![field(
                    "cities",
                    Value::Array(vec![
                        Value::Object(vec![
                            field("population", Value::Number(9_000_000)),
                            field("tag", Value::Text(s("capital"))),
                        ]),
                        Value::Object(vec![
                            field("population", Value::Number(1_000_000)),
                            field("tag", Value::Text(s("port"))),
                        ]),
                    ]),
                )]),
            )],
        },
        Payload {
            fields: vec![field(
                "country",
                Value::Object(vec![field(
                    "cities",
                    Value::Array(vec![
                        Value::Object(vec![
                            field("population", Value::Number(9_000_000)),
                            field("tag", Value::Text(s("port"))),
                        ]),
                        Value::Object(vec![
                            field("population", Value::Number(1_000_000)),
                            field("tag", Value::Text(s("capital"))),
                        ]),
                    ]),
                )]),
            )],
        },
    ];
    let provider = PayloadProvider::new(payloads);
    let registry = IndexesMap { entries: vec![] };
    let path = cities_path();
    let conditions = vec![
        Condition::Field(FieldCondition::new_range(
            s("population"),
            Range { lt: None, gt: Some(8_000_000), gte: None, lte: None },
        )),
        Condition::Field(FieldCondition::new_match(
            s("tag"),
            Match::Value(MatchValue { value: ValueVariants::Keyword(s("capital")) }),
        )),
    ];
    let checkers = nested_conditions_checkers(&conditions, &registry, &provider, &path);
    // point 0: element 0 satisfies both conditions
    assert!(check_nested_checkers(&checkers, 0));
    // point 1: each condition matches a different element
    assert!(!check_nested_checkers(&checkers, 1));

    // no conditions at all: every point matches
    let no_conditions: Vec<Condition> = vec![];
    let no_checkers = nested_conditions_checkers(&no_conditions, &registry, &provider, &path);
    assert!(check_nested_checkers(&no_checkers, 0));
    assert!(check_nested_checkers(&no_checkers, 99));
}

#[test]
fn empty_filter_through_checkers_matches_all_points() {
    let provider = PayloadProvider::new(vec![]);
    let registry = IndexesMap { entries: vec![] };
    let path = cities_path();
    let filter = Filter { should: None, must: Some(vec![]), must_not: None };
    let conditions = filter.must.as_ref().unwrap();
    let checkers = nested_conditions_checkers(conditions, &registry, &provider, &path);
    assert!(check_nested_checkers(&checkers, 0));
}
