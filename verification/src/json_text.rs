use vstd::prelude::*;

use crate::error::GenericError;
use crate::json::{canonical_json, num_free, Json, JsonValue};

verus! {

#[verifier::external_type_specification]
#[verifier::external_body]
pub struct ExValue(serde_json::Value);

#[verifier::external_type_specification]
#[verifier::external_body]
pub struct ExNumber(serde_json::Number);

#[verifier::external_type_specification]
#[verifier::external_body]
pub struct ExError(serde_json::Error);

/// The document a `serde_json::Value` holds, which Verus cannot see
/// into, read as this library's model: integer numbers split by sign,
/// object keys in the order the value's ordered map iterates them.
pub uninterp spec fn value_model(v: serde_json::Value) -> Json;

/// The document a text parses to, if it parses to one: what
/// `serde_json::from_str` makes of the text.
pub uninterp spec fn json_of_text(s: Seq<char>) -> Option<Json>;

/// The text a document serializes to: what `serde_json`'s writer emits
/// for it.
pub uninterp spec fn text_of_json(j: Json) -> Seq<char>;

/// The document as the outside representation holds it: what converting
/// a document to a `serde_json::Value` and reading the value back
/// gives. On documents already in the parser's form it changes nothing.
pub uninterp spec fn normal_form(j: Json) -> Json;

/// The message a serialization failure reports: what the error value's
/// Display emits, which depends on the error value alone.
pub uninterp spec fn serde_error_text(e: serde_json::Error) -> Seq<char>;


/// Relies on serde_json::from_str::<Value>: what a text parses to
/// depends on the text alone, parsing succeeds exactly when the text is
/// one JSON document, and the parsed value keeps its object keys in
/// increasing order, as its ordered map stores them.
#[verifier::external_body]
pub(crate) fn parse_text(s: &str) -> (r: Result<serde_json::Value, serde_json::Error>)
    ensures
        r is Ok <==> json_of_text(s@) is Some,
        r matches Ok(v) ==> json_of_text(s@) == Some(value_model(v))
            && canonical_json(value_model(v)),
{
    serde_json::from_str(s)
}

/// Relies on serde_json::Value's variants, Number::as_u64 and
/// Number::as_i64: each arm moves one variant of the outside value into
/// the variant of this library that stands for it, recursing through
/// arrays and objects.
#[verifier::external_body]
pub(crate) fn value_to_json(v: serde_json::Value) -> (r: JsonValue)
    ensures
        r@ == value_model(v),
{
    match v {
        serde_json::Value::Null => JsonValue::Null,
        serde_json::Value::Bool(b) => JsonValue::Bool(b),
        serde_json::Value::Number(n) => match (n.as_u64(), n.as_i64()) {
            (Some(u), _) => JsonValue::UInt(u),
            (None, Some(i)) => JsonValue::Int(i),
            (None, None) => JsonValue::Num(n),
        },
        serde_json::Value::String(s) => JsonValue::Str(s),
        serde_json::Value::Array(items) => JsonValue::Arr(items.into_iter().map(value_to_json).collect()),
        serde_json::Value::Object(map) => JsonValue::Obj(map.into_iter().map(|pair| (pair.0, value_to_json(pair.1))).collect()),
    }
}

/// Relies on serde_json::Value's variants and Number::from: the reverse
/// of the conversion above, one arm per variant. The outside value's
/// ordered map re-sorts object keys and its number type re-normalizes
/// integers; the result of that reshaping is a function of the document
/// alone, and it reshapes nothing on a document already in the parser's
/// form.
#[verifier::external_body]
pub(crate) fn json_to_value(j: JsonValue) -> (r: serde_json::Value)
    ensures
        value_model(r) == normal_form(j@),
        canonical_json(j@) && num_free(j@) ==> value_model(r) == j@,
{
    match j {
        JsonValue::Null => serde_json::Value::Null,
        JsonValue::Bool(b) => serde_json::Value::Bool(b),
        JsonValue::UInt(u) => serde_json::Value::Number(serde_json::Number::from(u)),
        JsonValue::Int(i) => serde_json::Value::Number(serde_json::Number::from(i)),
        JsonValue::Num(n) => serde_json::Value::Number(n),
        JsonValue::Str(s) => serde_json::Value::String(s),
        JsonValue::Arr(items) => serde_json::Value::Array(items.into_iter().map(json_to_value).collect()),
        JsonValue::Obj(pairs) => serde_json::Value::Object(pairs.into_iter().map(|pair| (pair.0, json_to_value(pair.1))).collect()),
    }
}

/// Relies on serde_json::Value's Display: the emitted text depends on
/// the document alone, and emitting it cannot fail.
#[verifier::external_body]
pub(crate) fn render_value(v: &serde_json::Value) -> (r: String)
    ensures
        r@ == text_of_json(value_model(*v)),
{
    v.to_string()
}

/// Relies on serde_json::Error's Display for the error's message.
#[verifier::external_body]
pub(crate) fn serde_error_string(e: &serde_json::Error) -> (r: String)
    ensures
        r@ == serde_error_text(*e),
{
    e.to_string()
}

/// Relies on serde_json::Number::clone: the copy carries the same
/// number.
pub assume_specification[ <serde_json::Number as Clone>::clone ](
    n: &serde_json::Number,
) -> (r: serde_json::Number)
    ensures
        r == *n,
;

impl JsonValue {
    /// Parse a text as one JSON document.
    pub fn parse(s: &str) -> (r: Result<JsonValue, GenericError>)
        ensures
            r is Ok <==> json_of_text(s@) is Some,
            r matches Ok(v) ==> json_of_text(s@) == Some(v@) && canonical_json(v@),
            r matches Err(e) ==> e is Serde,
    {
        match parse_text(s) {
            Ok(v) => Ok(value_to_json(v)),
            Err(e) => Err(GenericError::Serde(e)),
        }
    }

    /// Serialize this document: the emitted text is a function of the
    /// document alone. A document whose object keys stand in increasing
    /// order and whose numbers are integers — which is what this
    /// library parses and builds — is emitted as it stands.
    pub fn into_text(self) -> (r: String)
        ensures
            r@ == text_of_json(normal_form(self@)),
            canonical_json(self@) && num_free(self@) ==> r@ == text_of_json(self@),
    {
        let v = json_to_value(self);
        render_value(&v)
    }
}

} // verus!
