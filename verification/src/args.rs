//! Typed coercion of raw tool-call argument strings from the fallback
//! grammar: booleans, integers, numbers, nested JSON, or plain text.

use vstd::prelude::*;

use crate::jsonval::{
    json_bool, json_i64, json_number_parses, json_number_str, json_parse, json_parses, json_string,
};
use crate::text::{chars_of, i64_parses, i64_value, parse_i64, str_eq};

verus! {

/// The type a raw argument string coerces to.
#[derive(Debug, Clone, PartialEq, Eq, Structural)]
pub enum ArgShape {
    Bool(bool),
    Int(i64),
    Number,
    Json,
    Text,
}

/// The coercion rule: the literals `true` and `false`, then a signed 64-bit
/// integer, then any other JSON number, then text opening like a JSON array
/// or object that parses as JSON; everything else stays text. `number_ok`
/// and `json_ok` stand for the outside parser's verdicts on the whole text.
pub open spec fn spec_arg_shape(s: Seq<char>, number_ok: bool, json_ok: bool) -> ArgShape {
    if s == "true"@ {
        ArgShape::Bool(true)
    } else if s == "false"@ {
        ArgShape::Bool(false)
    } else if i64_parses(s) {
        ArgShape::Int(i64_value(s) as i64)
    } else if number_ok {
        ArgShape::Number
    } else if s.len() > 0 && (s[0] == '[' || s[0] == '{') && json_ok {
        ArgShape::Json
    } else {
        ArgShape::Text
    }
}

/// Decide what a raw argument string coerces to.
pub fn classify_arg(value: &str) -> (r: ArgShape)
    ensures
        r == spec_arg_shape(value@, json_number_parses(value@), json_parses(value@)),
{
    if str_eq(value, "true") {
        return ArgShape::Bool(true);
    }
    if str_eq(value, "false") {
        return ArgShape::Bool(false);
    }
    let chars = chars_of(value);
    if let Some(n) = parse_i64(chars.as_slice()) {
        return ArgShape::Int(n);
    }
    match json_number_str(value) {
        Some(_) => {
            return ArgShape::Number;
        },
        None => {},
    }
    if chars.len() > 0 && (chars[0] == '[' || chars[0] == '{') {
        match json_parse(value) {
            Some(_) => {
                return ArgShape::Json;
            },
            None => {},
        }
    }
    ArgShape::Text
}

/// Coerce a raw argument string to a typed JSON value, following
/// `spec_arg_shape`: each shape maps to the corresponding JSON constructor,
/// and `Number`/`Json` re-read the original text.
pub fn coerce_arg(value: &str) -> (r: serde_json::Value)
{
    match classify_arg(value) {
        ArgShape::Bool(b) => json_bool(b),
        ArgShape::Int(n) => json_i64(n),
        ArgShape::Number => match json_number_str(value) {
            Some(v) => v,
            None => json_string(value),
        },
        ArgShape::Json => match json_parse(value) {
            Some(v) => v,
            None => json_string(value),
        },
        ArgShape::Text => json_string(value),
    }
}

} // verus!
