//! The opaque JSON payloads that matches carry, and the few operations of
//! `serde_json` that the pipeline relies on.

use vstd::prelude::*;
use crate::types::StatField;

verus! {

#[verifier::external_type_specification]
#[verifier::external_body]
pub struct ExJsonValue(serde_json::Value);

/// Relies on the derived `Clone` of `serde_json::Value`: the copy is the same
/// JSON value.
pub assume_specification[ <serde_json::Value as Clone>::clone ](v: &serde_json::Value) -> (r: serde_json::Value)
    ensures
        r == *v,
;

/// The JSON object that `serde_json` builds from a list of column/value pairs.
pub uninterp spec fn stat_delta_json(fields: Seq<(Seq<char>, serde_json::Value)>) -> serde_json::Value;

/// The column/value pairs of a list of stat fields, in order.
pub open spec fn field_pairs(fields: Seq<StatField>) -> Seq<(Seq<char>, serde_json::Value)> {
    fields.map_values(|f: StatField| (f.column@, f.value))
}

/// Relies on `serde_json::Map`'s `FromIterator` and `Value::Object`: the
/// statistic payload of a timeline entry is the object built from the fields.
#[verifier::external_body]
pub(crate) fn stat_delta_object(fields: &Vec<StatField>) -> (r: serde_json::Value)
    ensures
        r == stat_delta_json(field_pairs(fields@)),
{
    serde_json::Value::Object(fields.iter().map(|f| (f.column.clone(), f.value.clone())).collect())
}

} // verus!
