//! Conditions and their per-element predicate evaluators: pure functions
//! testing one resolved payload value against a match, range, geo or
//! values-count predicate, and the condition/filter types built from them.

use vstd::prelude::*;

use crate::path::Path;
use crate::text::{tokenize, tokens_all_occur, tokens_of, tokens_subset};
use crate::value::{get_value_field, lookup_value, Value};

verus! {

/// A coordinate pair, in a caller-chosen fixed-point encoding of longitude
/// and latitude (the same encoding must be used throughout one index).
#[derive(Clone, Copy)]
pub struct GeoPoint {
    pub lon: i64,
    pub lat: i64,
}

/// A geo-radius predicate: matches coordinate pairs within `radius` of
/// `center` under the planar Euclidean metric, in coordinate units.
#[derive(Clone, Copy)]
pub struct GeoRadius {
    pub center: GeoPoint,
    pub radius: i64,
}

/// A geo-bounding-box predicate, with corners in lon/lat order.
#[derive(Clone, Copy)]
pub struct GeoBoundingBox {
    pub top_left: GeoPoint,
    pub bottom_right: GeoPoint,
}

/// A numeric range predicate; a value satisfies it iff the value passes
/// every bound that is set.
#[derive(Clone, Copy)]
pub struct Range {
    pub lt: Option<i64>,
    pub gt: Option<i64>,
    pub gte: Option<i64>,
    pub lte: Option<i64>,
}

/// A values-count predicate over the number of values at a field.
#[derive(Clone, Copy)]
pub struct ValuesCount {
    pub lt: Option<usize>,
    pub gt: Option<usize>,
    pub gte: Option<usize>,
    pub lte: Option<usize>,
}

/// A single value a match predicate can target.
pub enum ValueVariants {
    Keyword(String),
    Integer(i64),
    Bool(bool),
}

/// Exact-value match.
pub struct MatchValue {
    pub value: ValueVariants,
}

/// Full-text match: every space-separated token of `text` must occur.
pub struct MatchText {
    pub text: String,
}

/// The lists a match-any predicate can target.
pub enum AnyVariants {
    Keywords(Vec<String>),
    Integers(Vec<i64>),
}

/// Membership match: the value must equal one of the listed values.
pub struct MatchAny {
    pub any: AnyVariants,
}

/// A match predicate: exact value, full text, or any-of-a-list.
pub enum Match {
    Value(MatchValue),
    Text(MatchText),
    Any(MatchAny),
}

/// Coordinates small enough that squared planar distances stay
/// representable; coordinates outside this band never match a geo-radius.
pub open spec fn coord_ok(c: int) -> bool {
    -1_000_000_000_000 <= c <= 1_000_000_000_000
}

/// The geo-radius predicate on one coordinate pair.
pub open spec fn geo_radius_sat(g: GeoRadius, lon: int, lat: int) -> bool {
    coord_ok(g.center.lon as int) && coord_ok(g.center.lat as int) && coord_ok(lon) && coord_ok(
        lat,
    ) && (lon - g.center.lon) * (lon - g.center.lon) + (lat - g.center.lat) * (lat - g.center.lat)
        <= g.radius * g.radius
}

/// The geo-bounding-box predicate on one coordinate pair.
pub open spec fn bbox_sat(b: GeoBoundingBox, lon: int, lat: int) -> bool {
    b.top_left.lon <= lon <= b.bottom_right.lon && b.bottom_right.lat <= lat <= b.top_left.lat
}

/// The range predicate on one number.
pub open spec fn range_sat(r: Range, x: int) -> bool {
    (match r.lt {
        Some(b) => x < b,
        None => true,
    }) && (match r.gt {
        Some(b) => x > b,
        None => true,
    }) && (match r.lte {
        Some(b) => x <= b,
        None => true,
    }) && (match r.gte {
        Some(b) => x >= b,
        None => true,
    })
}

/// The values-count predicate on one count.
pub open spec fn values_count_sat(r: ValuesCount, x: nat) -> bool {
    (match r.lt {
        Some(b) => x < b,
        None => true,
    }) && (match r.gt {
        Some(b) => x > b,
        None => true,
    }) && (match r.lte {
        Some(b) => x <= b,
        None => true,
    }) && (match r.gte {
        Some(b) => x >= b,
        None => true,
    })
}

/// How many values a payload value carries for the values-count predicate:
/// none when absent/null, the length of an array, one otherwise.
pub open spec fn count_of_value(v: Value) -> nat {
    match v {
        Value::Null => 0nat,
        Value::Array(elems) => elems@.len(),
        _ => 1nat,
    }
}

/// The coordinate pair a payload value carries: an object with numeric
/// `lon` and `lat` fields, as the geo predicates expect.
pub open spec fn spec_geo_parts(v: Value) -> Option<(i64, i64)> {
    match (lookup_value(v, "lon"@), lookup_value(v, "lat"@)) {
        (Some(Value::Number(lon)), Some(Value::Number(lat))) => Some((lon, lat)),
        _ => None,
    }
}

/// The match predicate on one scalar value.
pub open spec fn match_sat(m: Match, v: Value) -> bool {
    match m {
        Match::Value(mv) => match (mv.value, v) {
            (ValueVariants::Keyword(k), Value::Text(s)) => s@ == k@,
            (ValueVariants::Integer(n), Value::Number(x)) => x == n,
            (ValueVariants::Bool(b), Value::Bool(x)) => x == b,
            _ => false,
        },
        Match::Text(mt) => match v {
            Value::Text(s) => tokens_subset(tokens_of(mt.text@), tokens_of(s@)),
            _ => false,
        },
        Match::Any(ma) => match (ma.any, v) {
            (AnyVariants::Keywords(list), Value::Text(s)) => exists|j: int|
                0 <= j < list@.len() && (#[trigger] list@[j])@ == s@,
            (AnyVariants::Integers(list), Value::Number(x)) => exists|j: int|
                0 <= j < list@.len() && #[trigger] list@[j] == x,
            _ => false,
        },
    }
}

/// The match predicate on one resolved value, arrays matched member-wise.
pub open spec fn match_check(m: Match, v: Value) -> bool {
    match v {
        Value::Array(elems) => exists|i: int|
            0 <= i < elems@.len() && match_sat(m, #[trigger] elems@[i]),
        _ => match_sat(m, v),
    }
}

/// The range predicate on one scalar value.
pub open spec fn range_sat_value(r: Range, v: Value) -> bool {
    match v {
        Value::Number(x) => range_sat(r, x as int),
        _ => false,
    }
}

/// The range predicate on one resolved value, arrays matched member-wise.
pub open spec fn range_check(r: Range, v: Value) -> bool {
    match v {
        Value::Array(elems) => exists|i: int|
            0 <= i < elems@.len() && range_sat_value(r, #[trigger] elems@[i]),
        _ => range_sat_value(r, v),
    }
}

/// The geo-radius predicate on one scalar value.
pub open spec fn geo_radius_sat_value(g: GeoRadius, v: Value) -> bool {
    match spec_geo_parts(v) {
        Some((lon, lat)) => geo_radius_sat(g, lon as int, lat as int),
        None => false,
    }
}

/// The geo-radius predicate on one resolved value, arrays member-wise.
pub open spec fn geo_radius_check(g: GeoRadius, v: Value) -> bool {
    match v {
        Value::Array(elems) => exists|i: int|
            0 <= i < elems@.len() && geo_radius_sat_value(g, #[trigger] elems@[i]),
        _ => geo_radius_sat_value(g, v),
    }
}

/// The geo-bounding-box predicate on one scalar value.
pub open spec fn bbox_sat_value(b: GeoBoundingBox, v: Value) -> bool {
    match spec_geo_parts(v) {
        Some((lon, lat)) => bbox_sat(b, lon as int, lat as int),
        None => false,
    }
}

/// The geo-bounding-box predicate on one resolved value, arrays member-wise.
pub open spec fn bbox_check(b: GeoBoundingBox, v: Value) -> bool {
    match v {
        Value::Array(elems) => exists|i: int|
            0 <= i < elems@.len() && bbox_sat_value(b, #[trigger] elems@[i]),
        _ => bbox_sat_value(b, v),
    }
}

/// The values-count predicate on one resolved value (counts, not any-of).
pub open spec fn values_count_check(r: ValuesCount, v: Value) -> bool {
    values_count_sat(r, count_of_value(v))
}

fn coord_in_range(c: i64) -> (r: bool)
    ensures
        r == coord_ok(c as int),
{
    -1_000_000_000_000i64 <= c && c <= 1_000_000_000_000i64
}

/// Reads the `lon`/`lat` coordinate pair out of a payload value.
pub fn geo_parts(v: &Value) -> (r: Option<(i64, i64)>)
    ensures
        r == spec_geo_parts(*v),
{
    let lon_key = String::from_str("lon");
    let lat_key = String::from_str("lat");
    match (get_value_field(v, &lon_key), get_value_field(v, &lat_key)) {
        (Some(Value::Number(lon)), Some(Value::Number(lat))) => Some((*lon, *lat)),
        _ => None,
    }
}

impl GeoRadius {
    /// Whether the coordinate pair lies within the radius around the
    /// center, under the planar metric in coordinate units.
    pub fn check_point(&self, lon: i64, lat: i64) -> (r: bool)
        ensures
            r == geo_radius_sat(*self, lon as int, lat as int),
    {
        if !(coord_in_range(self.center.lon) && coord_in_range(self.center.lat) && coord_in_range(
            lon,
        ) && coord_in_range(lat)) {
            return false;
        }
        let dx: i128 = lon as i128 - self.center.lon as i128;
        let dy: i128 = lat as i128 - self.center.lat as i128;
        proof {
            assert(0 <= dx * dx <= 4_000_000_000_000_000_000_000_000
                && 0 <= dy * dy <= 4_000_000_000_000_000_000_000_000) by (nonlinear_arith)
                requires
                    -2_000_000_000_000 <= dx <= 2_000_000_000_000,
                    -2_000_000_000_000 <= dy <= 2_000_000_000_000,
            ;
            let r = self.radius as int;
            assert(0 <= r * r <= 0x40000000000000000000000000000000) by (nonlinear_arith)
                requires
                    -0x8000000000000000 <= r <= 0x7fffffffffffffff,
            ;
        }
        let rr: i128 = self.radius as i128 * self.radius as i128;
        dx * dx + dy * dy <= rr
    }

    /// The geo-radius predicate on one scalar payload value.
    pub fn check_match(&self, v: &Value) -> (r: bool)
        ensures
            r == geo_radius_sat_value(*self, *v),
    {
        match geo_parts(v) {
            Some((lon, lat)) => self.check_point(lon, lat),
            None => false,
        }
    }

    /// The geo-radius predicate on one resolved value, arrays member-wise.
    #[verifier::loop_isolation(false)]
    pub fn check(&self, v: &Value) -> (r: bool)
        ensures
            r == geo_radius_check(*self, *v),
    {
        match v {
            Value::Array(elems) => {
                let n = elems.len();
                let mut i: usize = 0;
                while i < n
                    invariant
                        0 <= i <= n,
                        n == elems@.len(),
                        forall|j: int| 0 <= j < i ==> !geo_radius_sat_value(*self, elems@[j]),
                    decreases n - i,
                {
                    if self.check_match(&elems[i]) {
                        proof {
                            assert((*v)->Array_0 == *elems);
                            assert(geo_radius_sat_value(*self, (*v)->Array_0@[i as int]));
                        }
                        return true;
                    }
                    i += 1;
                }
                false
            },
            _ => self.check_match(v),
        }
    }
}

impl GeoBoundingBox {
    /// Whether the coordinate pair lies within the box.
    pub fn check_point(&self, lon: i64, lat: i64) -> (r: bool)
        ensures
            r == bbox_sat(*self, lon as int, lat as int),
    {
        self.top_left.lon <= lon && lon <= self.bottom_right.lon && self.bottom_right.lat <= lat
            && lat <= self.top_left.lat
    }

    /// The geo-bounding-box predicate on one scalar payload value.
    pub fn check_match(&self, v: &Value) -> (r: bool)
        ensures
            r == bbox_sat_value(*self, *v),
    {
        match geo_parts(v) {
            Some((lon, lat)) => self.check_point(lon, lat),
            None => false,
        }
    }

    /// The predicate on one resolved value, arrays matched member-wise.
    #[verifier::loop_isolation(false)]
    pub fn check(&self, v: &Value) -> (r: bool)
        ensures
            r == bbox_check(*self, *v),
    {
        match v {
            Value::Array(elems) => {
                let n = elems.len();
                let mut i: usize = 0;
                while i < n
                    invariant
                        0 <= i <= n,
                        n == elems@.len(),
                        forall|j: int| 0 <= j < i ==> !bbox_sat_value(*self, elems@[j]),
                    decreases n - i,
                {
                    if self.check_match(&elems[i]) {
                        proof {
                            assert((*v)->Array_0 == *elems);
                            assert(bbox_sat_value(*self, (*v)->Array_0@[i as int]));
                        }
                        return true;
                    }
                    i += 1;
                }
                false
            },
            _ => self.check_match(v),
        }
    }
}

impl Range {
    /// The range predicate on one number: every set bound must pass.
    pub fn check_range(&self, x: i64) -> (r: bool)
        ensures
            r == range_sat(*self, x as int),
    {
        (match self.lt {
            Some(b) => x < b,
            None => true,
        }) && (match self.gt {
            Some(b) => x > b,
            None => true,
        }) && (match self.lte {
            Some(b) => x <= b,
            None => true,
        }) && (match self.gte {
            Some(b) => x >= b,
            None => true,
        })
    }

    /// The range predicate on one scalar payload value.
    pub fn check_match(&self, v: &Value) -> (r: bool)
        ensures
            r == range_sat_value(*self, *v),
    {
        match v {
            Value::Number(x) => self.check_range(*x),
            _ => false,
        }
    }

    /// The predicate on one resolved value, arrays matched member-wise.
    #[verifier::loop_isolation(false)]
    pub fn check(&self, v: &Value) -> (r: bool)
        ensures
            r == range_check(*self, *v),
    {
        match v {
            Value::Array(elems) => {
                let n = elems.len();
                let mut i: usize = 0;
                while i < n
                    invariant
                        0 <= i <= n,
                        n == elems@.len(),
                        forall|j: int| 0 <= j < i ==> !range_sat_value(*self, elems@[j]),
                    decreases n - i,
                {
                    if self.check_match(&elems[i]) {
                        proof {
                            assert((*v)->Array_0 == *elems);
                            assert(range_sat_value(*self, (*v)->Array_0@[i as int]));
                        }
                        return true;
                    }
                    i += 1;
                }
                false
            },
            _ => self.check_match(v),
        }
    }
}

impl ValuesCount {
    /// The values-count predicate on one count.
    pub fn check_count(&self, x: usize) -> (r: bool)
        ensures
            r == values_count_sat(*self, x as nat),
    {
        (match self.lt {
            Some(b) => x < b,
            None => true,
        }) && (match self.gt {
            Some(b) => x > b,
            None => true,
        }) && (match self.lte {
            Some(b) => x <= b,
            None => true,
        }) && (match self.gte {
            Some(b) => x >= b,
            None => true,
        })
    }

    /// The values-count predicate on one resolved value: it counts the
    /// values there (array length, zero for null) instead of matching
    /// members.
    pub fn check(&self, v: &Value) -> (r: bool)
        ensures
            r == values_count_check(*self, *v),
    {
        let count: usize = match v {
            Value::Null => 0,
            Value::Array(elems) => elems.len(),
            _ => 1,
        };
        self.check_count(count)
    }
}

pub(crate) fn keyword_list_contains(list: &Vec<String>, s: &String) -> (r: bool)
    ensures
        r == exists|j: int| 0 <= j < list@.len() && (#[trigger] list@[j])@ == s@,
{
    let n = list.len();
    let mut i: usize = 0;
    while i < n
        invariant
            0 <= i <= n,
            n == list@.len(),
            forall|j: int| 0 <= j < i ==> (#[trigger] list@[j])@ != s@,
        decreases n - i,
    {
        if list[i] == *s {
            return true;
        }
        i += 1;
    }
    false
}

pub(crate) fn integer_list_contains(list: &Vec<i64>, x: i64) -> (r: bool)
    ensures
        r == exists|j: int| 0 <= j < list@.len() && #[trigger] list@[j] == x,
{
    let n = list.len();
    let mut i: usize = 0;
    while i < n
        invariant
            0 <= i <= n,
            n == list@.len(),
            forall|j: int| 0 <= j < i ==> #[trigger] list@[j] != x,
        decreases n - i,
    {
        if list[i] == x {
            return true;
        }
        i += 1;
    }
    false
}

impl Match {
    /// The match predicate on one scalar payload value.
    pub fn check_match(&self, v: &Value) -> (r: bool)
        ensures
            r == match_sat(*self, *v),
    {
        match self {
            Match::Value(mv) => match (&mv.value, v) {
                (ValueVariants::Keyword(k), Value::Text(s)) => *s == *k,
                (ValueVariants::Integer(n), Value::Number(x)) => *x == *n,
                (ValueVariants::Bool(b), Value::Bool(x)) => *x == *b,
                _ => false,
            },
            Match::Text(mt) => match v {
                Value::Text(s) => {
                    let query_tokens = tokenize(mt.text.as_str());
                    let doc_tokens = tokenize(s.as_str());
                    tokens_all_occur(&query_tokens, &doc_tokens)
                },
                _ => false,
            },
            Match::Any(ma) => match (&ma.any, v) {
                (AnyVariants::Keywords(list), Value::Text(s)) => keyword_list_contains(list, s),
                (AnyVariants::Integers(list), Value::Number(x)) => integer_list_contains(list, *x),
                _ => false,
            },
        }
    }

    /// The predicate on one resolved value, arrays matched member-wise.
    #[verifier::loop_isolation(false)]
    pub fn check(&self, v: &Value) -> (r: bool)
        ensures
            r == match_check(*self, *v),
    {
        match v {
            Value::Array(elems) => {
                let n = elems.len();
                let mut i: usize = 0;
                while i < n
                    invariant
                        0 <= i <= n,
                        n == elems@.len(),
                        forall|j: int| 0 <= j < i ==> !match_sat(*self, elems@[j]),
                    decreases n - i,
                {
                    if self.check_match(&elems[i]) {
                        proof {
                            assert((*v)->Array_0 == *elems);
                            assert(match_sat(*self, (*v)->Array_0@[i as int]));
                        }
                        return true;
                    }
                    i += 1;
                }
                false
            },
            _ => self.check_match(v),
        }
    }
}

/// One field path together with its configured sub-predicates. A condition
/// with several sub-predicates set is satisfied by an element when any one
/// of them matches it: an OR across sub-predicates, kept exactly as the
/// evaluation semantics require, though it may read as surprising.
pub struct FieldCondition {
    pub key: String,
    pub cond_match: Option<Match>,
    pub range: Option<Range>,
    pub geo_radius: Option<GeoRadius>,
    pub geo_bounding_box: Option<GeoBoundingBox>,
    pub values_count: Option<ValuesCount>,
}

/// The OR across a field condition's configured sub-predicates on one
/// resolved element value.
pub open spec fn field_condition_sat(c: FieldCondition, v: Value) -> bool {
    (match c.cond_match {
        Some(m) => match_check(m, v),
        None => false,
    }) || (match c.range {
        Some(r) => range_check(r, v),
        None => false,
    }) || (match c.geo_radius {
        Some(g) => geo_radius_check(g, v),
        None => false,
    }) || (match c.geo_bounding_box {
        Some(b) => bbox_check(b, v),
        None => false,
    }) || (match c.values_count {
        Some(vc) => values_count_check(vc, v),
        None => false,
    })
}

impl FieldCondition {
    /// Whether any configured sub-predicate matches the element value.
    pub fn check(&self, v: &Value) -> (r: bool)
        ensures
            r == field_condition_sat(*self, *v),
    {
        let by_match = match &self.cond_match {
            Some(m) => m.check(v),
            None => false,
        };
        let by_range = match &self.range {
            Some(r) => r.check(v),
            None => false,
        };
        let by_radius = match &self.geo_radius {
            Some(g) => g.check(v),
            None => false,
        };
        let by_box = match &self.geo_bounding_box {
            Some(b) => b.check(v),
            None => false,
        };
        let by_count = match &self.values_count {
            Some(vc) => vc.check(v),
            None => false,
        };
        by_match || by_range || by_radius || by_box || by_count
    }
}

/// The field whose emptiness or nullness a condition targets.
pub struct PayloadField {
    pub key: String,
}

/// Matches elements whose field is absent, null, or an empty array.
pub struct IsEmptyCondition {
    pub is_empty: PayloadField,
}

/// Matches elements whose field is null (or, through an array, contains
/// null); an absent field counts as null.
pub struct IsNullCondition {
    pub is_null: PayloadField,
}

/// Point identifiers, as the surrounding filter tree uses them; never valid
/// inside a nested scope.
pub struct HasIdCondition {
    pub has_id: Vec<u64>,
}

/// A filter scoped to each element of the array at `path`.
pub struct NestedCondition {
    pub path: Path,
    pub filter: Filter,
}

/// One leaf or subtree of a filter expression.
pub enum Condition {
    Field(FieldCondition),
    IsEmpty(IsEmptyCondition),
    IsNull(IsNullCondition),
    HasId(HasIdCondition),
    Nested(NestedCondition),
    Filter(Filter),
}

/// A boolean combination of conditions. In nested scope only `must` is
/// consumed; `should` and `must_not` are a declared limitation there.
pub struct Filter {
    pub should: Option<Vec<Condition>>,
    pub must: Option<Vec<Condition>>,
    pub must_not: Option<Vec<Condition>>,
}

/// The condition kinds allowed inside a nested scope: field, is-empty and
/// is-null conditions. Identifier, nested and raw-filter conditions are
/// structurally invalid there and must be rejected when the filter is
/// built.
pub open spec fn valid_nested_condition(c: Condition) -> bool {
    match c {
        Condition::Field(_) => true,
        Condition::IsEmpty(_) => true,
        Condition::IsNull(_) => true,
        _ => false,
    }
}

/// Checks one condition for validity inside a nested scope; lets a filter
/// construction fail fast instead of misevaluating.
pub fn is_valid_nested_condition(c: &Condition) -> (r: bool)
    ensures
        r == valid_nested_condition(*c),
{
    match c {
        Condition::Field(_) => true,
        Condition::IsEmpty(_) => true,
        Condition::IsNull(_) => true,
        _ => false,
    }
}


impl FieldCondition {
    /// A condition with only an exact/text/membership match configured.
    pub fn new_match(key: String, cond_match: Match) -> (r: FieldCondition)
        ensures
            r.key == key,
            r.cond_match == Some(cond_match),
            r.range is None && r.geo_radius is None && r.geo_bounding_box is None
                && r.values_count is None,
    {
        FieldCondition {
            key,
            cond_match: Some(cond_match),
            range: None,
            geo_radius: None,
            geo_bounding_box: None,
            values_count: None,
        }
    }

    /// A condition with only a numeric range configured.
    pub fn new_range(key: String, range: Range) -> (r: FieldCondition)
        ensures
            r.key == key,
            r.range == Some(range),
            r.cond_match is None && r.geo_radius is None && r.geo_bounding_box is None
                && r.values_count is None,
    {
        FieldCondition {
            key,
            cond_match: None,
            range: Some(range),
            geo_radius: None,
            geo_bounding_box: None,
            values_count: None,
        }
    }

    /// A condition with only a geo-radius configured.
    pub fn new_geo_radius(key: String, geo_radius: GeoRadius) -> (r: FieldCondition)
        ensures
            r.key == key,
            r.geo_radius == Some(geo_radius),
            r.cond_match is None && r.range is None && r.geo_bounding_box is None
                && r.values_count is None,
    {
        FieldCondition {
            key,
            cond_match: None,
            range: None,
            geo_radius: Some(geo_radius),
            geo_bounding_box: None,
            values_count: None,
        }
    }

    /// A condition with only a geo-bounding-box configured.
    pub fn new_geo_bounding_box(key: String, geo_bounding_box: GeoBoundingBox) -> (r:
        FieldCondition)
        ensures
            r.key == key,
            r.geo_bounding_box == Some(geo_bounding_box),
            r.cond_match is None && r.range is None && r.geo_radius is None && r.values_count
                is None,
    {
        FieldCondition {
            key,
            cond_match: None,
            range: None,
            geo_radius: None,
            geo_bounding_box: Some(geo_bounding_box),
            values_count: None,
        }
    }

    /// A condition with only a values-count predicate configured.
    pub fn new_values_count(key: String, values_count: ValuesCount) -> (r: FieldCondition)
        ensures
            r.key == key,
            r.values_count == Some(values_count),
            r.cond_match is None && r.range is None && r.geo_radius is None && r.geo_bounding_box
                is None,
    {
        FieldCondition {
            key,
            cond_match: None,
            range: None,
            geo_radius: None,
            geo_bounding_box: None,
            values_count: Some(values_count),
        }
    }
}

impl Filter {
    /// A filter with a single must condition and nothing else.
    pub fn new_must(condition: Condition) -> (r: Filter)
        ensures
            r.should is None && r.must_not is None,
            match r.must {
                Some(cs) => cs@ =~= seq![condition],
                None => false,
            },
    {
        let conditions = vec![condition];
        Filter { should: None, must: Some(conditions), must_not: None }
    }
}

impl Condition {
    /// A nested condition scoping `filter` to each element of the array at
    /// `path`.
    pub fn new_nested(path: Path, filter: Filter) -> (r: Condition)
        ensures
            r == Condition::Nested(NestedCondition { path, filter }),
    {
        Condition::Nested(NestedCondition { path, filter })
    }
}

} // verus!
