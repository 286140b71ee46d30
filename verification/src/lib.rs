//! Nested-condition matching for a payload index: given a point identifier
//! and a set of conditions scoped to one nested array field, decide whether
//! some single array element satisfies all of them simultaneously.
//!
//! The crate has two evaluation paths that must agree: index-accelerated
//! checkers working on precomputed per-point value sequences, and fallback
//! checkers that resolve the field path directly in the payload document.
//! Matches are correlated across conditions by 0-based element position.

pub mod conditions;
pub mod index;
pub mod laws;
pub mod nested_filter;
pub mod nested_query_checker;
pub mod path;
pub mod positions;
pub mod text;
pub mod value;

pub use path::{MultiValue, Path};
pub use value::{Payload, Value};
