//! The document-scan fallback on the countries/cities dataset, and the
//! absence/null/empty edge cases. Decimal numbers and coordinates are
//! carried in the library's fixed-point integer encoding, in micro-units:
//! a population of 3.7 is 3_700_000 and a longitude of 13.76116 is
//! 13_761_160 micro-degrees.

use nested_filtering::conditions::{
    Condition, FieldCondition, Filter, GeoBoundingBox, GeoPoint, GeoRadius, HasIdCondition,
    IsEmptyCondition, IsNullCondition, Match, MatchValue, PayloadField, Range, ValueVariants,
    ValuesCount,
};
use nested_filtering::nested_query_checker::{
    check_nested_filter, check_nested_is_null_condition, nested_check_field_condition,
};
use nested_filtering::conditions::is_valid_nested_condition;
use nested_filtering::path::Path;
use nested_filtering::value::{Payload, Value};

fn s(text: &str) -> String {
    text.to_string()
}

fn field(key: &str, value: Value) -> (String, Value) {
    (s(key), value)
}

fn location(lon_micro: i64, lat_micro: i64) -> Value {
    Value::Object(vec![
        field("lon", Value::Number(lon_micro)),
        field("lat", Value::Number(lat_micro)),
    ])
}

fn sightseeing(names: &[&str]) -> Value {
    Value::Array(names.iter().map(|n| Value::Text(s(n))).collect())
}

fn city(
    name: &str,
    population_micro: i64,
    loc: Option<(i64, i64)>,
    sights: &[&str],
) -> Value {
    let mut fields = vec![field("name", Value::Text(s(name)))];
    fields.push(field("population", Value::Number(population_micro)));
    if let Some((lon, lat)) = loc {
        fields.push(field("location", location(lon, lat)));
    }
    fields.push(field("sightseeing", sightseeing(sights)));
    Value::Object(fields)
}

fn country(name: &str, capital: Option<&str>, cities: Vec<Value>) -> Payload {
    let mut fields = vec![field("name", Value::Text(s(name)))];
    if let Some(capital_name) = capital {
        fields.push(field("capital", Value::Text(s(capital_name))));
    }
    fields.push(field("cities", Value::Array(cities)));
    Payload { fields: vec![field("country", Value::Object(fields))] }
}

fn payload_germany() -> Payload {
    country(
        "Germany",
        Some("Berlin"),
        vec![
            city(
                "Berlin",
                3_700_000,
                Some((13_761_160, 52_338_260)),
                &["Brandenburg Gate", "Reichstag"],
            ),
            city(
                "Munich",
                1_500_000,
                Some((11_575_490, 48_137_430)),
                &["Marienplatz", "Olympiapark"],
            ),
            city(
                "Hamburg",
                1_800_000,
                Some((9_993_680, 53_551_080)),
                &["Reeperbahn", "Elbphilharmonie"],
            ),
        ],
    )
}

fn payload_japan() -> Payload {
    country(
        "Japan",
        Some("Tokyo"),
        vec![
            city(
                "Tokyo",
                13_500_000,
                Some((139_691_710, 35_689_500)),
                &["Tokyo Tower", "Tokyo Skytree", "Tokyo Disneyland"],
            ),
            city(
                "Osaka",
                2_700_000,
                Some((135_502_170, 34_693_740)),
                &["Osaka Castle", "Universal Studios Japan"],
            ),
            city(
                "Kyoto",
                1_500_000,
                Some((135_768_030, 35_011_630)),
                &["Kiyomizu-dera", "Fushimi Inari-taisha"],
            ),
        ],
    )
}

fn payload_boring() -> Payload {
    country("Boring", None, vec![city("Boring-ville", 0, None, &[])])
}

fn country_path() -> Path {
    Path { keys: vec![s("country")], nested: None }
}

fn cities_path() -> Path {
    Path { keys: vec![s("country"), s("cities")], nested: Some(vec![]) }
}

fn check(payload: &Payload, nested: &Condition) -> bool {
    match nested {
        Condition::Nested(nc) => check_nested_filter(&nc.path, &nc.filter, payload),
        _ => panic!("expected a nested condition"),
    }
}

#[test]
fn test_nested_condition_checker() {
    let payload_germany = payload_germany();
    let payload_japan = payload_japan();
    let payload_boring = payload_boring();

    // single match condition in nested field, no arrays
    let match_nested_name_condition = Condition::new_nested(
        country_path(),
        Filter::new_must(Condition::Field(FieldCondition::new_match(
            s("name"),
            Match::Value(MatchValue { value: ValueVariants::Keyword(s("Germany")) }),
        ))),
    );

    assert!(check(&payload_germany, &match_nested_name_condition));
    assert!(!check(&payload_japan, &match_nested_name_condition));
    assert!(!check(&payload_boring, &match_nested_name_condition));

    // single range condition on a nested field in an array: population > 8.0
    let population_range_condition = Condition::new_nested(
        cities_path(),
        Filter::new_must(Condition::Field(FieldCondition::new_range(
            s("population"),
            Range { lt: None, gt: Some(8_000_000), gte: None, lte: None },
        ))),
    );

    assert!(!check(&payload_germany, &population_range_condition));
    assert!(check(&payload_japan, &population_range_condition));
    assert!(!check(&payload_boring, &population_range_condition));

    // single values-count condition on a nested field in an array
    let sightseeing_value_count_condition = Condition::new_nested(
        cities_path(),
        Filter::new_must(Condition::Field(FieldCondition::new_values_count(
            s("sightseeing"),
            ValuesCount { lt: None, gt: None, gte: Some(3), lte: None },
        ))),
    );

    assert!(!check(&payload_germany, &sightseeing_value_count_condition));
    assert!(check(&payload_japan, &sightseeing_value_count_condition));
    assert!(!check(&payload_boring, &sightseeing_value_count_condition));

    // single is-empty condition on a nested field in an array
    let is_empty_condition = Condition::new_nested(
        cities_path(),
        Filter::new_must(Condition::IsEmpty(IsEmptyCondition {
            is_empty: PayloadField { key: s("sightseeing") },
        })),
    );

    assert!(!check(&payload_germany, &is_empty_condition));
    assert!(!check(&payload_japan, &is_empty_condition));
    assert!(check(&payload_boring, &is_empty_condition));

    // single is-null condition on a nested field in an array
    let is_null_condition = Condition::new_nested(
        cities_path(),
        Filter::new_must(Condition::IsNull(IsNullCondition {
            is_null: PayloadField { key: s("location") },
        })),
    );

    assert!(!check(&payload_germany, &is_null_condition));
    assert!(!check(&payload_japan, &is_null_condition));
    assert!(check(&payload_boring, &is_null_condition));

    // single geo-bounding-box on a nested field in an array
    let location_close_to_berlin_box_condition = Condition::new_nested(
        cities_path(),
        Filter::new_must(Condition::Field(FieldCondition::new_geo_bounding_box(
            s("location"),
            GeoBoundingBox {
                top_left: GeoPoint { lon: 13_088_350, lat: 52_675_510 },
                bottom_right: GeoPoint { lon: 13_761_170, lat: 52_338_250 },
            },
        ))),
    );

    // Germany has a city whose location is within the box
    assert!(check(&payload_germany, &location_close_to_berlin_box_condition));
    assert!(!check(&payload_japan, &location_close_to_berlin_box_condition));
    assert!(!check(&payload_boring, &location_close_to_berlin_box_condition));

    // single geo-radius on a nested field in an array: 1000 m around
    // Berlin is about 8983 micro-degrees under the planar metric
    let location_close_to_berlin_radius_condition = Condition::new_nested(
        cities_path(),
        Filter::new_must(Condition::Field(FieldCondition::new_geo_radius(
            s("location"),
            GeoRadius { center: GeoPoint { lon: 13_761_170, lat: 52_338_250 }, radius: 8_983 },
        ))),
    );

    // Germany has a city whose location is within the radius
    assert!(check(&payload_germany, &location_close_to_berlin_radius_condition));
    assert!(!check(&payload_japan, &location_close_to_berlin_radius_condition));
    assert!(!check(&payload_boring, &location_close_to_berlin_radius_condition));
}

#[test]
fn empty_must_list_matches_unconditionally() {
    let filter = Filter { should: None, must: Some(vec![]), must_not: None };
    assert!(check_nested_filter(&cities_path(), &filter, &payload_boring()));
    let absent = Filter { should: None, must: None, must_not: None };
    assert!(check_nested_filter(&cities_path(), &absent, &payload_germany()));
}

#[test]
fn is_null_absent_field_equals_explicit_null() {
    // one document without the field, one with an explicit null there
    let missing = Payload { fields: vec![field("country", Value::Object(vec![]))] };
    let explicit = Payload {
        fields: vec![field("country", Value::Object(vec![field("location", Value::Null)]))],
    };
    let cond = IsNullCondition { is_null: PayloadField { key: s("location") } };
    let path = country_path();
    let from_missing = check_nested_is_null_condition(&path, &cond, &missing);
    let from_explicit = check_nested_is_null_condition(&path, &cond, &explicit);
    assert_eq!(from_missing, vec![0]);
    assert_eq!(from_explicit, vec![0]);
}

#[test]
fn is_empty_and_is_null_on_arrays() {
    // cities[0].tags is an empty array, cities[1].tags is all-null
    let payload = Payload {
        fields: vec![field(
            "country",
            Value::Object(vec![field(
                "cities",
                Value::Array(vec![
                    Value::Object(vec![field("tags", Value::Array(vec![]))]),
                    Value::Object(vec![field(
                        "tags",
                        Value::Array(vec![Value::Null, Value::Null]),
                    )]),
                ]),
            )]),
        )],
    };
    let path = cities_path();

    let empty_filter = Filter::new_must(Condition::IsEmpty(IsEmptyCondition {
        is_empty: PayloadField { key: s("tags") },
    }));
    // only the empty array at position 0 matches is-empty
    assert!(check_nested_filter(&path, &empty_filter, &payload));

    let null_filter = Filter::new_must(Condition::IsNull(IsNullCondition {
        is_null: PayloadField { key: s("tags") },
    }));
    // the all-null array answers to is-null through the contains-null rule
    assert!(check_nested_filter(&path, &null_filter, &payload));

    let null_positions = check_nested_is_null_condition(
        &path,
        &IsNullCondition { is_null: PayloadField { key: s("tags") } },
        &payload,
    );
    assert_eq!(null_positions, vec![1]);
}

#[test]
fn field_condition_or_across_sub_predicates() {
    // range matches position 0 only, geo-radius matches position 1 only:
    // the OR across sub-predicates accepts both elements
    let payload = Payload {
        fields: vec![field(
            "country",
            Value::Object(vec![field(
                "cities",
                Value::Array(vec![
                    Value::Object(vec![field("spot", Value::Number(9_000_000))]),
                    Value::Object(vec![field("spot", location(10, 10))]),
                ]),
            )]),
        )],
    };
    let condition = FieldCondition {
        key: s("spot"),
        cond_match: None,
        range: Some(Range { lt: None, gt: Some(8_000_000), gte: None, lte: None }),
        geo_radius: Some(GeoRadius { center: GeoPoint { lon: 0, lat: 0 }, radius: 100 }),
        geo_bounding_box: None,
        values_count: None,
    };
    let positions = nested_check_field_condition(&condition, &payload, &cities_path());
    assert_eq!(positions, vec![0, 1]);
}

#[test]
fn structurally_invalid_nested_conditions_are_rejected() {
    let has_id = Condition::HasId(HasIdCondition { has_id: vec![1, 2, 3] });
    assert!(!is_valid_nested_condition(&has_id));
    let nested = Condition::new_nested(
        country_path(),
        Filter { should: None, must: None, must_not: None },
    );
    assert!(!is_valid_nested_condition(&nested));
    let raw = Condition::Filter(Filter { should: None, must: None, must_not: None });
    assert!(!is_valid_nested_condition(&raw));
    let field_cond = Condition::Field(FieldCondition::new_match(
        s("name"),
        Match::Value(MatchValue { value: ValueVariants::Keyword(s("x")) }),
    ));
    assert!(is_valid_nested_condition(&field_cond));
}
