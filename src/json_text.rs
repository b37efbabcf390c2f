use vstd::prelude::*;

use crate::payload::Payload;
use crate::text::{digit_runs_within, digit_runs_within_exec};

verus! {

/// json::JsonValue, carried through as an opaque value.
#[verifier::external_type_specification]
#[verifier::external_body]
pub struct ExJsonValue(json::JsonValue);

/// json::object::Object, carried through as an opaque value.
#[verifier::external_type_specification]
#[verifier::external_body]
pub struct ExJsonObject(json::object::Object);

/// json::Error, the parser's refusal of a text.
#[verifier::external_type_specification]
#[verifier::external_body]
pub struct ExJsonError(json::Error);

/// What a text is to the JSON parser: an object, an array, another value, or
/// no JSON at all.
#[derive(Debug, Clone, Copy, PartialEq, Eq, Structural)]
pub enum JsonKind {
    Object,
    Array,
    Other,
    Invalid,
}

/// What `json::parse` makes of a text: this depends on the text alone.
pub uninterp spec fn json_kind(text: Seq<char>) -> JsonKind;

/// The longest run of decimal digits handed to the parser. Each digit of a
/// fraction lowers the parser's 16-bit exponent by one, so a much longer run
/// would overflow it.
pub const MAX_DIGIT_RUN: usize = 32767;

/// The deepest nesting of arrays that is turned into a `Payload`; the parser
/// refuses anything nested this deep, so every array it returns is converted.
pub const MAX_DEPTH: usize = 1024;

/// The top level of a parsed JSON value.
pub enum Shape {
    Object(json::object::Object),
    Array(Vec<json::JsonValue>),
    Other,
}

/// Whether a payload has the kind that the parser gave its text.
pub open spec fn payload_agrees(p: Payload, k: JsonKind) -> bool {
    &&& (p is Object <==> k == JsonKind::Object)
    &&& (p is Array <==> k == JsonKind::Array)
}

/// Whether `r` is a possible outcome of reading `text` as a payload: there is
/// one exactly when the text is JSON without overlong digit runs, and it has
/// the kind that the parser gives the text.
pub open spec fn parse_agrees(text: Seq<char>, r: Option<Payload>) -> bool {
    &&& (r is Some <==> digit_runs_within(text, MAX_DIGIT_RUN as nat) && json_kind(text)
        != JsonKind::Invalid)
    &&& (r matches Some(p) ==> payload_agrees(p, json_kind(text)))
}

/// Relies on json::parse, which depends on the text alone, and on the variants
/// of json::JsonValue, telling objects and arrays from the rest. The parser
/// panics on a fraction of more than 32768 digits, which `requires` leaves
/// out.
#[verifier::external_body]
fn parse_shape(text: &str) -> (r: Result<Shape, json::Error>)
    requires
        digit_runs_within(text@, MAX_DIGIT_RUN as nat),
    ensures
        r is Err <==> json_kind(text@) == JsonKind::Invalid,
        r matches Ok(s) ==> (s is Object <==> json_kind(text@) == JsonKind::Object),
        r matches Ok(s) ==> (s is Array <==> json_kind(text@) == JsonKind::Array),
{
    match json::parse(text) {
        Ok(json::JsonValue::Object(o)) => Ok(Shape::Object(o)),
        Ok(json::JsonValue::Array(a)) => Ok(Shape::Array(a)),
        Ok(_) => Ok(Shape::Other),
        Err(e) => Err(e),
    }
}

/// Relies on the variants of json::JsonValue, telling objects and arrays from
/// the rest.
#[verifier::external_body]
fn shape_of(v: json::JsonValue) -> (r: Shape) {
    match v {
        json::JsonValue::Object(o) => Shape::Object(o),
        json::JsonValue::Array(a) => Shape::Array(a),
        _ => Shape::Other,
    }
}

/// Relies on json::stringify, for the compact JSON text of an object.
#[verifier::external_body]
fn object_text(o: json::object::Object) -> (r: String) {
    json::stringify(o)
}

/// The payload of a parsed element, with arrays nested deeper than `depth`
/// taken as scalars.
fn payload_of(v: json::JsonValue, depth: usize) -> (r: Payload)
    decreases depth, 1int,
{
    payload_of_shape(shape_of(v), depth)
}

/// The payload of a parsed value of the given shape: an object stays an
/// object, an array stays an array while `depth` is not used up, and anything
/// else is a scalar.
fn payload_of_shape(s: Shape, depth: usize) -> (r: Payload)
    ensures
        s is Object <==> r is Object,
        (s is Array && depth > 0) <==> r is Array,
    decreases depth, 0int,
{
    match s {
        Shape::Object(o) => Payload::Object(object_text(o)),
        Shape::Array(a) => {
            if depth == 0 {
                return Payload::Scalar;
            }
            let mut rest = a;
            let mut reversed: Vec<Payload> = Vec::new();
            while rest.len() > 0
                invariant
                    depth > 0,
                decreases rest@.len(),
            {
                let e = rest.pop().unwrap();
                reversed.push(payload_of(e, depth - 1));
            }
            let mut items: Vec<Payload> = Vec::new();
            while reversed.len() > 0
                decreases reversed@.len(),
            {
                items.push(reversed.pop().unwrap());
            }
            Payload::Array(items)
        },
        Shape::Other => Payload::Scalar,
    }
}

/// Reads a JSON text as a payload. There is none for a text that is not JSON,
/// nor for one with a run of digits longer than the parser can take.
pub fn parse_payload(text: &str) -> (r: Option<Payload>)
    ensures
        parse_agrees(text@, r),
{
    if !digit_runs_within_exec(text, MAX_DIGIT_RUN) {
        return None;
    }
    match parse_shape(text) {
        Ok(s) => Some(payload_of_shape(s, MAX_DEPTH)),
        Err(_) => None,
    }
}

} // verus!
