//! Checks on the arguments of a run, made before any line is read. Each
//! returns `Ok(())` for an argument that can be used and a message for one
//! that cannot.

use vstd::prelude::*;
use crate::export::{check_format, is_format};
use crate::numbers::{parse_i64, parsed_i64};
use crate::options::{
    invalid_mode_from_name,
    invalid_mode_named,
    rounding_from_name,
    rounding_named,
    unit_family_from_name,
    unit_family_named,
    UnitFamily,
};
use crate::text::{chars_of, is_digit, is_digit_char, lowercase, lowercase_of};

verus! {

/// A strictly positive 64-bit integer in decimal.
pub open spec fn is_positive_integer(s: Seq<char>) -> bool {
    match parsed_i64(s) {
        Some(value) => value > 0,
        None => false,
    }
}

/// A field range as it may be written: digits and at most one dash.
pub open spec fn is_field_range(s: Seq<char>) -> bool {
    &&& forall|i: int| 0 <= i < s.len() ==> is_digit(#[trigger] s[i]) || s[i] == '-'
    &&& forall|i: int, j: int|
        0 <= i < s.len() && 0 <= j < s.len() && #[trigger] s[i] == '-' && #[trigger] s[j] == '-'
            ==> i == j
}

/// The name, in lowercase, of a family that input can be read by.
pub open spec fn is_unit_from_name(name: Seq<char>) -> bool {
    unit_family_named(name) is Some
}

/// The name, in lowercase, of a family that output can be written in: any
/// but `auto`.
pub open spec fn is_unit_to_name(name: Seq<char>) -> bool {
    match unit_family_named(name) {
        Some(family) => family != UnitFamily::Auto,
        None => false,
    }
}

/// Accepts a 64-bit integer in decimal, with or without a sign.
pub fn is_int(s: String) -> (result: Result<(), String>)
    ensures
        result is Ok <==> parsed_i64(s@) is Some,
        result matches Err(message) ==> message@ == "value should be an integer."@,
{
    let chars = chars_of(s.as_str());
    match parse_i64(&chars) {
        Some(_) => Ok(()),
        None => Err("value should be an integer.".to_string()),
    }
}

/// Accepts a 64-bit integer in decimal that is greater than zero.
pub fn strick_positive_int(s: String) -> (result: Result<(), String>)
    ensures
        result is Ok <==> is_positive_integer(s@),
        result matches Err(message) ==> message@ == "value should be strickly positive integer."@,
{
    let chars = chars_of(s.as_str());
    match parse_i64(&chars) {
        Some(value) => {
            if value > 0 {
                Ok(())
            } else {
                Err("value should be strickly positive integer.".to_string())
            }
        },
        None => Err("value should be strickly positive integer.".to_string()),
    }
}

/// Accepts a field range: digits and at most one dash.
pub fn validate_field(s: String) -> (result: Result<(), String>)
    ensures
        result is Ok <==> is_field_range(s@),
        result matches Err(message) ==> message@ == "invalid arg for field"@,
{
    let chars = chars_of(s.as_str());
    let mut seen_dash = false;
    let ghost mut dash_at: int = 0;
    let mut i: usize = 0;
    while i < chars.len()
        invariant
            i <= chars.len(),
            chars@ == s@,
            forall|k: int| 0 <= k < i ==> is_digit(#[trigger] chars@[k]) || chars@[k] == '-',
            seen_dash ==> 0 <= dash_at < i && chars@[dash_at] == '-',
            forall|k: int| 0 <= k < i && #[trigger] chars@[k] == '-' ==> seen_dash && k == dash_at,
        decreases chars.len() - i,
    {
        let c = chars[i];
        if c == '-' {
            if seen_dash {
                return Err("invalid arg for field".to_string());
            }
            seen_dash = true;
            proof {
                dash_at = i as int;
            }
        } else if !is_digit_char(c) {
            return Err("invalid arg for field".to_string());
        }
        i += 1;
    }
    Ok(())
}

/// Accepts a printf-style format: a `%`, then the width, which may be left
/// out, then an `f`. Text before and after is allowed.
pub fn validate_format(s: String) -> (result: Result<(), String>)
    ensures
        result is Ok <==> is_format(s@),
        result matches Err(message) ==> message@ == "invalid arg for format"@,
{
    if check_format(s.as_str()) {
        Ok(())
    } else {
        Err("invalid arg for format".to_string())
    }
}

/// Accepts the name of a family that input can be read by, in any case:
/// `auto`, `si`, `iec` or `iec-i`.
pub fn validate_unit_from(s: String) -> (result: Result<(), String>)
    ensures
        result is Ok <==> is_unit_from_name(lowercase_of(s@)),
        result matches Err(message) ==> message@ == "invalid unit arg"@,
{
    let lowered = lowercase(s.as_str());
    match unit_family_from_name(lowered.as_str()) {
        Some(_) => Ok(()),
        None => Err("invalid unit arg".to_string()),
    }
}

/// Accepts the name of a family that output can be written in, in any case:
/// `si`, `iec` or `iec-i`.
pub fn validate_unit_to(s: String) -> (result: Result<(), String>)
    ensures
        result is Ok <==> is_unit_to_name(lowercase_of(s@)),
        result matches Err(message) ==> message@ == "invalid unit arg"@,
{
    let lowered = lowercase(s.as_str());
    match unit_family_from_name(lowered.as_str()) {
        Some(UnitFamily::Auto) => Err("invalid unit arg".to_string()),
        Some(_) => Ok(()),
        None => Err("invalid unit arg".to_string()),
    }
}

/// Accepts the name of an invalid mode, in any case: `fail`, `warn`,
/// `ignore` or `abort`.
pub fn validate_invalid(s: String) -> (result: Result<(), String>)
    ensures
        result is Ok <==> invalid_mode_named(lowercase_of(s@)) is Some,
        result matches Err(message) ==> message@ == "invalid invalid mode"@,
{
    let lowered = lowercase(s.as_str());
    match invalid_mode_from_name(lowered.as_str()) {
        Some(_) => Ok(()),
        None => Err("invalid invalid mode".to_string()),
    }
}

/// Accepts the name of a rounding method, in any case: `up`, `down`,
/// `from-zero`, `towards-zero` or `nearest`.
pub fn validate_round(s: String) -> (result: Result<(), String>)
    ensures
        result is Ok <==> rounding_named(lowercase_of(s@)) is Some,
        result matches Err(message) ==> message@ == "invalid round method"@,
{
    let lowered = lowercase(s.as_str());
    match rounding_from_name(lowered.as_str()) {
        Some(_) => Ok(()),
        None => Err("invalid round method".to_string()),
    }
}

} // verus!
