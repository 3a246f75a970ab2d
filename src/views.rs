//! What the form shows for an input, as plain values.

use vstd::prelude::*;

use crate::json::{Json, JsonNumber, JsonValue};
use crate::path::same_text;

verus! {

/// The help text shown under an input: its description when it has one, and
/// nothing otherwise.
pub fn render_description(description: Option<&str>) -> (r: Option<String>)
    ensures
        match description {
            Some(d) => r matches Some(t) && t@ == d@,
            None => r is None,
        },
{
    match description {
        Some(d) => Some(d.to_owned()),
        None => None,
    }
}

/// Whether a number is other than zero; a float is zero when all its bits
/// but the sign are.
pub open spec fn is_nonzero(n: JsonNumber) -> bool {
    match n {
        JsonNumber::PosInt(u) => u != 0,
        JsonNumber::NegInt(i) => i != 0,
        JsonNumber::Float(bits) => bits & 0x7fff_ffff_ffff_ffffu64 != 0,
    }
}

/// Whether a yes/no input shows as checked for the value at its path:
/// nothing and `null` are unchecked, a boolean is itself, a number is checked
/// unless it is zero, a string only when it is `true`, and an array or a
/// mapping is checked.
pub open spec fn is_checked(value: Option<Json>) -> bool {
    match value {
        None => false,
        Some(Json::Null) => false,
        Some(Json::Bool(b)) => b,
        Some(Json::Number(n)) => is_nonzero(n),
        Some(Json::String(s)) => s == seq!['t', 'r', 'u', 'e'],
        Some(_) => true,
    }
}

/// Whether a yes/no input shows as checked for `value`, the value at its path.
pub fn checked(value: Option<&JsonValue>) -> (r: bool)
    ensures
        r == is_checked(
            match value {
                Some(v) => Some(v@),
                None => None,
            },
        ),
{
    match value {
        None => false,
        Some(JsonValue::Null) => false,
        Some(JsonValue::Bool(b)) => *b,
        Some(JsonValue::Number(n)) => match n {
            JsonNumber::PosInt(u) => *u != 0,
            JsonNumber::NegInt(i) => *i != 0,
            JsonNumber::Float(bits) => *bits & 0x7fff_ffff_ffff_ffffu64 != 0,
        },
        Some(JsonValue::String(s)) => {
            proof {
                reveal_strlit("true");
            }
            assert("true"@ == seq!['t', 'r', 'u', 'e']);
            same_text(s.as_str(), "true")
        },
        Some(_) => true,
    }
}

/// How many items a list input shows for `value`, the value at its path: the
/// length of an array, and none for anything else.
pub fn list_length(value: Option<&JsonValue>) -> (r: usize)
    ensures
        r == match value {
            Some(v) => match v@ {
                Json::Array(a) => a.len(),
                _ => 0,
            },
            None => 0,
        },
{
    match value {
        Some(JsonValue::Array(a)) => a.len(),
        _ => 0,
    }
}

} // verus!
