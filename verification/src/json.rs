//! Reading a JSON object's top-level fields through `serde_json`.
use vstd::prelude::*;
use crate::models::{FieldValue, FieldValueModel, JsonField};

verus! {

/// The top-level fields, in `serde_json`'s map order, of the JSON object that
/// `serde_json::from_str::<Value>` reads from `line`; `None` when `line` is
/// not JSON or is JSON but not an object. Each value is reduced to what the
/// filters read: a string's contents, a number's `as_i64` and its JSON text,
/// or the JSON text of any other value.
pub uninterp spec fn json_object_fields(line: Seq<char>) -> Option<Seq<(Seq<char>, FieldValueModel)>>;

/// The fields of `fields`, as mathematical values.
pub open spec fn fields_model(fields: Seq<JsonField>) -> Seq<(Seq<char>, FieldValueModel)> {
    fields.map_values(|f: JsonField| f@)
}

/// Calls `serde_json::from_str::<serde_json::Value>` and, for an object,
/// converts each top-level field (`Number::as_i64` and `to_string` give a
/// number's value and text; `to_string` gives the JSON text of other values).
#[verifier::external_body]
pub(crate) fn parse_json_object(line: &str) -> (r: Option<Vec<JsonField>>)
    ensures
        match r {
            Some(fs) => json_object_fields(line@) == Some(fields_model(fs@)),
            None => json_object_fields(line@) is None,
        },
{
    match serde_json::from_str::<serde_json::Value>(line) {
        Ok(serde_json::Value::Object(map)) => Some(map.into_iter().map(|(key, v)| {
            let value = match v {
                serde_json::Value::String(s) => FieldValue::Text(s),
                serde_json::Value::Number(n) => FieldValue::Number(n.as_i64(), n.to_string()),
                other => FieldValue::Other(other.to_string()),
            };
            JsonField { key, value }
        }).collect()),
        _ => None,
    }
}

} // verus!
