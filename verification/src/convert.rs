//! The serialization boundary: conversions between the metadata value
//! and the JSON value type of the serde ecosystem, used where an
//! outside collaborator produces or consumes serialized data.
//!
//! A JSON number that does not fit a 64-bit signed integer (including
//! any fractional number) does not convert losslessly here and is
//! reported as a conversion error, the distinct error kind for this
//! boundary.

use crate::error::Error;
use crate::value::Value;
use serde_json::Value as JsonValue;
use vstd::prelude::*;

verus! {

#[verifier::external_type_specification]
#[verifier::external_body]
pub struct ExJsonValue(JsonValue);

/// Relies on serde_json::Value's accessors: convert a JSON tree into
/// the metadata value, field for field.  Numbers beyond the signed
/// 64-bit range are conversion errors.
#[verifier::external_body]
pub fn json_to_value(j: &JsonValue) -> (r: Result<Value, Error>)
    ensures
        r matches Err(e) ==> e is SerdeJson,
{
    let oor = || Error::SerdeJson { message: "number does not fit a 64-bit integer".into() };
    match j {
        JsonValue::Null => Ok(Value::Null),
        JsonValue::Bool(b) => Ok(Value::Bool(*b)),
        JsonValue::Number(n) => n.as_i64().map(Value::Int).ok_or_else(oor),
        JsonValue::String(s) => Ok(Value::Str(s.clone())),
        JsonValue::Array(a) => Ok(Value::Arr(a.iter().map(json_to_value).collect::<Result<_, _>>()?)),
        JsonValue::Object(m) => Ok(Value::Obj(
            m.iter().map(|(k, v)| Ok((k.clone(), json_to_value(v)?))).collect::<Result<_, _>>()?,
        )),
    }
}

/// Relies on serde_json::Value's constructors: convert a metadata
/// value into a JSON tree, field for field.  Byte payloads become
/// arrays of numbers; a float's bit pattern travels as an integer.
#[verifier::external_body]
pub fn value_to_json(v: &Value) -> (r: JsonValue) {
    match v {
        Value::Null => JsonValue::Null,
        Value::Bool(b) => JsonValue::Bool(*b),
        Value::Int(i) => JsonValue::from(*i),
        Value::Float(bits) => JsonValue::from(*bits),
        Value::Str(s) => JsonValue::String(s.clone()),
        Value::Bytes(b) => JsonValue::from(b.clone()),
        Value::Arr(a) => JsonValue::Array(a.iter().map(value_to_json).collect()),
        Value::Obj(es) => JsonValue::Object(
            es.iter().map(|(k, v)| (k.clone(), value_to_json(v))).collect(),
        ),
    }
}

} // verus!
