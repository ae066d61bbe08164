//! Splitting a field into its number and its suffix.
//!
//! The number is the longest run of digits, points and commas that the field
//! starts with; the suffix is what is left. The run is a number when it is
//! made of digits with at most one point among or around them.

use vstd::prelude::*;
use crate::options::ConvertError;
use crate::text::{chars_of, is_digit, is_digit_char, string_of_range};

verus! {

/// The characters that can stand in the number of a field.
pub open spec fn is_numeral_char(c: char) -> bool {
    is_digit(c) || c == '.' || c == ','
}

/// The end of the run of numeral characters that starts at `from`.
pub open spec fn numeral_end(s: Seq<char>, from: int) -> int
    decreases s.len() - from,
{
    if 0 <= from < s.len() && is_numeral_char(s[from]) {
        numeral_end(s, from + 1)
    } else {
        from
    }
}

/// The number of a field: its longest prefix of numeral characters.
pub open spec fn numeral_of(field: Seq<char>) -> Seq<char> {
    field.take(numeral_end(field, 0))
}

/// The suffix of a field: what follows its number.
pub open spec fn suffix_of(field: Seq<char>) -> Seq<char> {
    field.skip(numeral_end(field, 0))
}

/// A decimal number: digits and points only, one point at most, one digit at
/// least.
pub open spec fn is_decimal_number(s: Seq<char>) -> bool {
    &&& forall|i: int| 0 <= i < s.len() ==> is_digit(#[trigger] s[i]) || s[i] == '.'
    &&& forall|i: int, j: int|
        0 <= i < s.len() && 0 <= j < s.len() && #[trigger] s[i] == '.' && #[trigger] s[j] == '.'
            ==> i == j
    &&& exists|i: int| 0 <= i < s.len() && is_digit(#[trigger] s[i])
}

/// What is wrong with a run of numeral characters, if anything.
pub open spec fn numeral_error(numeral: Seq<char>) -> Option<ConvertError> {
    if numeral.len() == 0 {
        Some(ConvertError::EmptyNumber)
    } else if !is_decimal_number(numeral) {
        Some(ConvertError::InvalidNumber)
    } else {
        None
    }
}

/// A text with every `decimal_point` turned into `.`.
pub open spec fn with_decimal_point(field: Seq<char>, decimal_point: char) -> Seq<char> {
    Seq::new(
        field.len(),
        |i: int|
            if field[i] == decimal_point {
                '.'
            } else {
                field[i]
            },
    )
}

/// Number and suffix together are the field; the number is made of numeral
/// characters, and the suffix does not start with one.
pub proof fn lemma_split_is_lossless(field: Seq<char>)
    ensures
        numeral_of(field) + suffix_of(field) == field,
        forall|i: int|
            0 <= i < numeral_of(field).len() ==> is_numeral_char(#[trigger] numeral_of(field)[i]),
        suffix_of(field).len() > 0 ==> !is_numeral_char(suffix_of(field)[0]),
{
    lemma_numeral_run(field, 0);
}

/// The run of numeral characters that starts at `from` holds numeral
/// characters only, and what follows it is none.
proof fn lemma_numeral_run(s: Seq<char>, from: int)
    requires
        0 <= from <= s.len(),
    ensures
        from <= numeral_end(s, from) <= s.len(),
        forall|i: int| from <= i < numeral_end(s, from) ==> is_numeral_char(#[trigger] s[i]),
        numeral_end(s, from) < s.len() ==> !is_numeral_char(s[numeral_end(s, from)]),
    decreases s.len() - from,
{
    if from < s.len() && is_numeral_char(s[from]) {
        lemma_numeral_run(s, from + 1);
    }
}

/// Turns the decimal point of the input's locale into `.`.
pub fn normalize_decimal_point(field: &str, decimal_point: char) -> (out: String)
    ensures
        out@ == with_decimal_point(field@, decimal_point),
{
    let chars = chars_of(field);
    let mut out = String::new();
    let mut i: usize = 0;
    while i < chars.len()
        invariant
            i <= chars.len(),
            chars@ == field@,
            out@ == with_decimal_point(field@, decimal_point).take(i as int),
        decreases chars.len() - i,
    {
        let c = chars[i];
        out.push(
            if c == decimal_point {
                '.'
            } else {
                c
            },
        );
        i += 1;
    }
    out
}

fn check_number(v: &Vec<char>, end: usize) -> (ok: bool)
    requires
        end <= v.len(),
    ensures
        ok == is_decimal_number(v@.take(end as int)),
{
    let ghost s = v@.take(end as int);
    let mut seen_point = false;
    let mut seen_digit = false;
    let ghost mut point_at: int = 0;
    let ghost mut digit_at: int = 0;
    let mut i: usize = 0;
    while i < end
        invariant
            i <= end <= v.len(),
            s == v@.take(end as int),
            forall|k: int| 0 <= k < i ==> is_digit(#[trigger] s[k]) || s[k] == '.',
            seen_point ==> 0 <= point_at < i && s[point_at] == '.',
            forall|k: int| 0 <= k < i && #[trigger] s[k] == '.' ==> seen_point && k == point_at,
            seen_digit ==> 0 <= digit_at < i && is_digit(s[digit_at]),
            !seen_digit ==> forall|k: int| 0 <= k < i ==> !is_digit(#[trigger] s[k]),
        decreases end - i,
    {
        let c = v[i];
        if c == '.' {
            if seen_point {
                assert(s[point_at] == '.' && s[i as int] == '.' && point_at != i);
                return false;
            }
            seen_point = true;
            proof {
                point_at = i as int;
            }
        } else if is_digit_char(c) {
            seen_digit = true;
            proof {
                digit_at = i as int;
            }
        } else {
            assert(!(is_digit(s[i as int]) || s[i as int] == '.'));
            return false;
        }
        i += 1;
    }
    seen_digit
}

/// Splits a field into its number, left in `number`, and its suffix, put
/// into `suffix`. Fails when the number is empty or is no decimal number;
/// both are split off all the same.
pub fn strip_number(number: &mut String, suffix: &mut String) -> (result: Result<(), ConvertError>)
    ensures
        final(number)@ == numeral_of(old(number)@),
        final(suffix)@ == suffix_of(old(number)@),
        result == match numeral_error(numeral_of(old(number)@)) {
            Some(error) => Err::<(), ConvertError>(error),
            None => Ok(()),
        },
{
    let chars = chars_of(number.as_str());
    let mut end: usize = 0;
    while end < chars.len() && (is_digit_char(chars[end]) || chars[end] == '.' || chars[end]
        == ',')
        invariant
            end <= chars.len(),
            numeral_end(chars@, 0) == numeral_end(chars@, end as int),
        decreases chars.len() - end,
    {
        end += 1;
    }
    *suffix = string_of_range(&chars, end, chars.len());
    *number = string_of_range(&chars, 0, end);
    if end == 0 {
        Err(ConvertError::EmptyNumber)
    } else if !check_number(&chars, end) {
        Err(ConvertError::InvalidNumber)
    } else {
        Ok(())
    }
}

} // verus!
