//! Decimal integers as text: what a string of digits denotes, and parsers
//! for the signed and unsigned machine integers.
//!
//! The grammar is the usual one: an optional sign, then one digit or more.
//! An unsigned integer takes `+` as its only sign.

use vstd::prelude::*;
use crate::text::{is_digit, is_digit_char};

verus! {

/// The value of a decimal digit; 0 for any other character.
pub open spec fn digit_value(c: char) -> nat {
    if is_digit(c) {
        (c as int - '0' as int) as nat
    } else {
        0
    }
}

/// The number that the digits of `s` denote, read from the left.
pub open spec fn decimal_value(s: Seq<char>) -> nat
    decreases s.len(),
{
    if s.len() == 0 {
        0
    } else {
        10 * decimal_value(s.drop_last()) + digit_value(s.last())
    }
}

/// One decimal digit or more, and nothing else.
pub open spec fn is_digits(s: Seq<char>) -> bool {
    s.len() > 0 && forall|i: int| 0 <= i < s.len() ==> is_digit(#[trigger] s[i])
}

/// The integer that `s` denotes: digits, with `+` or `-` in front or without
/// a sign. `None` when `s` is not of that form.
pub open spec fn signed_decimal(s: Seq<char>) -> Option<int> {
    if s.len() > 0 && s[0] == '-' {
        if is_digits(s.skip(1)) {
            Some(-(decimal_value(s.skip(1)) as int))
        } else {
            None
        }
    } else if s.len() > 0 && s[0] == '+' {
        if is_digits(s.skip(1)) {
            Some(decimal_value(s.skip(1)) as int)
        } else {
            None
        }
    } else if is_digits(s) {
        Some(decimal_value(s) as int)
    } else {
        None
    }
}

/// The natural number that `s` denotes: digits, with `+` in front or without
/// a sign. `None` when `s` is not of that form.
pub open spec fn unsigned_decimal(s: Seq<char>) -> Option<nat> {
    if s.len() > 0 && s[0] == '+' {
        if is_digits(s.skip(1)) {
            Some(decimal_value(s.skip(1)))
        } else {
            None
        }
    } else if is_digits(s) {
        Some(decimal_value(s))
    } else {
        None
    }
}

/// `s` read as a 64-bit signed integer: `None` when `s` is no signed decimal
/// integer or denotes one that is out of range.
pub open spec fn parsed_i64(s: Seq<char>) -> Option<i64> {
    match signed_decimal(s) {
        Some(value) => if i64::MIN <= value <= i64::MAX {
            Some(value as i64)
        } else {
            None
        },
        None => None,
    }
}

/// `s` read as a `usize`: `None` when `s` is no unsigned decimal integer or
/// denotes one that is out of range.
pub open spec fn parsed_usize(s: Seq<char>) -> Option<usize> {
    match unsigned_decimal(s) {
        Some(value) => if value <= usize::MAX {
            Some(value as usize)
        } else {
            None
        },
        None => None,
    }
}

/// A number is at least what any of its leading digits denote.
pub proof fn lemma_decimal_value_prefix(s: Seq<char>, k: int)
    requires
        0 <= k <= s.len(),
    ensures
        decimal_value(s.take(k)) <= decimal_value(s),
    decreases s.len() - k,
{
    if k == s.len() {
        assert(s.take(k) == s);
    } else {
        assert(s.drop_last().take(k) == s.take(k));
        lemma_decimal_value_prefix(s.drop_last(), k);
    }
}

/// The number that `v[from..]` denotes when it is made of digits and does
/// not exceed `limit`.
fn digits_value(v: &Vec<char>, from: usize, limit: u128) -> (result: Option<u128>)
    requires
        from <= v.len(),
        limit <= 0x1_0000_0000_0000_0000,
    ensures
        result matches Some(value) ==> is_digits(v@.skip(from as int)) && value == decimal_value(
            v@.skip(from as int),
        ) && value <= limit,
        result is None ==> !is_digits(v@.skip(from as int)) || decimal_value(v@.skip(from as int))
            > limit,
{
    let ghost digits = v@.skip(from as int);
    if from == v.len() {
        return None;
    }
    let mut value: u128 = 0;
    let mut i: usize = from;
    while i < v.len()
        invariant
            from <= i <= v.len(),
            digits == v@.skip(from as int),
            limit <= 0x1_0000_0000_0000_0000,
            value <= limit,
            value == decimal_value(digits.take(i - from)),
            forall|j: int| 0 <= j < i - from ==> is_digit(#[trigger] digits[j]),
        decreases v.len() - i,
    {
        let c = v[i];
        assert(digits[i - from] == c);
        if !is_digit_char(c) {
            return None;
        }
        let digit: u128 = (c as u32 - '0' as u32) as u128;
        proof {
            let longer = digits.take(i - from + 1);
            assert(longer.drop_last() == digits.take(i - from));
            lemma_decimal_value_prefix(digits, i - from + 1);
        }
        value = value * 10 + digit;
        if value > limit {
            return None;
        }
        i += 1;
    }
    assert(digits.take(i - from) == digits);
    Some(value)
}

/// Tells whether `v` is a decimal integer with or without a sign, of
/// whatever size.
pub(crate) fn is_signed_decimal(v: &Vec<char>) -> (b: bool)
    ensures
        b == (signed_decimal(v@) is Some),
{
    let from: usize = if v.len() > 0 && (v[0] == '-' || v[0] == '+') {
        1
    } else {
        0
    };
    let ghost digits = v@.skip(from as int);
    assert(v@.skip(0) == v@);
    if from == v.len() {
        return false;
    }
    let mut i: usize = from;
    while i < v.len()
        invariant
            from <= i <= v.len(),
            digits == v@.skip(from as int),
            v@.skip(0) == v@,
            from == 1 <==> v@[0] == '-' || v@[0] == '+',
            from == 0 || from == 1,
            forall|j: int| 0 <= j < i - from ==> is_digit(#[trigger] digits[j]),
        decreases v.len() - i,
    {
        assert(digits[i - from] == v@[i as int]);
        if !is_digit_char(v[i]) {
            assert(!is_digits(digits));
            return false;
        }
        i += 1;
    }
    assert(is_digits(digits));
    true
}

/// Reads a 64-bit signed integer.
pub(crate) fn parse_i64(v: &Vec<char>) -> (result: Option<i64>)
    ensures
        result == parsed_i64(v@),
{
    let signed = v.len() > 0 && (v[0] == '-' || v[0] == '+');
    let negative = v.len() > 0 && v[0] == '-';
    let from: usize = if signed {
        1
    } else {
        0
    };
    assert(v@.skip(0) == v@);
    match digits_value(v, from, 0x8000_0000_0000_0000) {
        Some(magnitude) => {
            if negative {
                Some((-(magnitude as i128)) as i64)
            } else if magnitude <= 0x7fff_ffff_ffff_ffff {
                Some(magnitude as i64)
            } else {
                None
            }
        },
        None => None,
    }
}

/// Reads a `usize`.
pub(crate) fn parse_usize(v: &Vec<char>) -> (result: Option<usize>)
    ensures
        result == parsed_usize(v@),
{
    let from: usize = if v.len() > 0 && v[0] == '+' {
        1
    } else {
        0
    };
    assert(v@.skip(0) == v@);
    match digits_value(v, from, usize::MAX as u128) {
        Some(magnitude) => Some(magnitude as usize),
        None => None,
    }
}

} // verus!
