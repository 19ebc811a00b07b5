//! The trusted boundary around serde_json: type declarations, two
//! named results, and thin wrappers for the few calls the header
//! parser makes. Everything on the far side of these items is
//! believed, not proved; each doc comment names the serde_json item
//! relied on. The contracts speak over [`crate::json_model`], the
//! library's own model of JSON values.

use vstd::prelude::*;

use crate::json_model::{fields_model, items_model, num_of, JsonModel};

verus! {

/// Declares `serde_json::Value` so that it can stand in signatures
/// and fields. The value is opaque: the library carries it through
/// (the reserved metadata entry) or reads it via the wrappers below,
/// whose contracts speak of [`value_model`].
#[verifier::external_type_specification]
#[verifier::external_body]
pub struct ExValue(serde_json::Value);

/// Declares `serde_json::Error`, the parse-failure value; the header
/// parser maps it to [`crate::error::DecodeError::MalformedMetadataError`].
#[verifier::external_type_specification]
#[verifier::external_body]
pub struct ExError(serde_json::Error);

/// What a `serde_json::Value` holds, as a [`JsonModel`]. The wrappers
/// below each relate their call's result to this name, so the header
/// parser's contracts can speak of the value's contents.
pub uninterp spec fn value_model(v: serde_json::Value) -> JsonModel;

/// What `serde_json::from_slice::<serde_json::Value>` yields on these
/// bytes: `None` where they are not valid JSON, otherwise the model
/// of the parsed value. The parse result is a function of the bytes
/// alone.
pub uninterp spec fn json_of(b: Seq<u8>) -> Option<JsonModel>;

/// Relies on `serde_json::from_slice::<serde_json::Value>`: parses
/// the bytes as one JSON value, `Err` exactly when they are not valid
/// JSON, and the parse is a function of the bytes alone ([`json_of`]).
#[verifier::external_body]
pub(crate) fn parse_json(b: &[u8]) -> (r: Result<serde_json::Value, serde_json::Error>)
    ensures
        r is Ok <==> json_of(b@) is Some,
        r matches Ok(v) ==> json_of(b@) == Some(value_model(v)),
{
    serde_json::from_slice(b)
}

/// Relies on `serde_json::Value`'s `Clone`: a clone equals its source.
#[verifier::external_body]
pub(crate) fn clone_value(v: &serde_json::Value) -> (r: serde_json::Value)
    ensures
        r == *v,
{
    v.clone()
}

/// Relies on `serde_json::Value::as_object` and `serde_json::Map::iter`
/// over the default `BTreeMap` backing: `Some` exactly on a JSON
/// object, yielding each entry of the map exactly once, in map order,
/// so the returned keys are pairwise distinct and the list is what
/// the object holds.
#[verifier::external_body]
pub(crate) fn obj_entries(v: &serde_json::Value) -> (r: Option<
    Vec<(String, serde_json::Value)>,
>)
    ensures
        r is Some <==> value_model(*v) is Obj,
        r matches Some(list) ==> value_model(*v) == JsonModel::Obj(fields_model(list@)),
        r matches Some(list) ==> forall|i: int, j: int|
            0 <= i < j < list@.len() ==> list@[i].0@ != list@[j].0@,
{
    v.as_object().map(|m| m.iter().map(|(k, val)| (k.clone(), val.clone())).collect())
}

/// Relies on `serde_json::Value::as_str`: the string exactly when the
/// value is a JSON string.
#[verifier::external_body]
pub(crate) fn val_str(v: &serde_json::Value) -> (r: Option<String>)
    ensures
        match value_model(*v) {
            JsonModel::Str(s) => r matches Some(rs) && rs@ == s,
            _ => r is None,
        },
{
    v.as_str().map(|s| s.to_owned())
}

/// Relies on `serde_json::Value::as_u64`: the value as a `u64` exactly
/// when it is an integer that fits — the model's own `u64` reading.
#[verifier::external_body]
pub(crate) fn val_u64(v: &serde_json::Value) -> (r: Option<u64>)
    ensures
        r == num_of(value_model(*v)),
{
    v.as_u64()
}

/// Relies on `serde_json::Value::as_array`: the element list exactly
/// when the value is a JSON array, element for element.
#[verifier::external_body]
pub(crate) fn val_items(v: &serde_json::Value) -> (r: Option<Vec<serde_json::Value>>)
    ensures
        r is Some <==> value_model(*v) is Arr,
        r matches Some(items) ==> value_model(*v) == JsonModel::Arr(items_model(items@)),
{
    v.as_array().map(|a| a.clone())
}

} // verus!
