//! Writing a converted number out: digit grouping, the unit and the caller's
//! suffix, and padding to a width, given directly or through a printf-style
//! format.

use vstd::prelude::*;
use vstd::utf8::encode_utf8;
use vstd::string::StringSliceAdditionalSpecFns;
use crate::modulo::ModuloSignedExt;
use crate::numbers::{is_signed_decimal, parse_i64, parsed_i64, signed_decimal};
use crate::text::{
    chars_of,
    find_from,
    first_index,
    first_index_from,
    is_digit,
    is_digit_char,
    lemma_first_index_from,
    push_range,
};

verus! {

/// `n` blanks.
pub open spec fn spaces(n: nat) -> Seq<char> {
    Seq::new(n, |i: int| ' ')
}

/// The length of a text in bytes, as UTF-8.
pub open spec fn byte_len(s: Seq<char>) -> nat {
    encode_utf8(s).len()
}

/// The magnitude of a signed width.
pub open spec fn magnitude(width: int) -> nat {
    if width < 0 {
        (-width) as nat
    } else {
        width as nat
    }
}

/// The blanks owed to a content of `content` bytes under a signed width:
/// what the width's magnitude exceeds the content by, and nothing when the
/// content is as wide or wider.
pub open spec fn pad_count(width: int, content: nat) -> nat {
    if magnitude(width) > content {
        (magnitude(width) - content) as nat
    } else {
        0
    }
}

/// A number, its unit and the caller's suffix, padded to `width`. The width
/// counts number and unit, not the suffix. A width of zero or more aligns to
/// the right: the blanks come first. A negative width aligns to the left: the
/// blanks come last.
pub open spec fn padded(value: Seq<char>, unit: Seq<char>, suffix: Seq<char>, width: int) -> Seq<
    char,
> {
    let blanks = spaces(pad_count(width, byte_len(value) + byte_len(unit)));
    if width >= 0 {
        blanks + value + unit + suffix
    } else {
        value + unit + suffix + blanks
    }
}

/// Where the directive of a format begins: at its first `%`.
pub open spec fn directive_start(format: Seq<char>) -> int {
    first_index(format, '%')
}

/// Where the directive of a format ends: at the first `f` after its `%`.
pub open spec fn directive_end(format: Seq<char>) -> int {
    first_index_from(format, 'f', directive_start(format))
}

/// A format holds a directive when it has a `%` and an `f` somewhere after
/// it.
pub open spec fn has_directive(format: Seq<char>) -> bool {
    directive_start(format) < format.len() && directive_end(format) < format.len()
}

/// What stands between the `%` and the `f` of the directive.
pub open spec fn width_token(format: Seq<char>) -> Seq<char> {
    format.subrange(directive_start(format) + 1, directive_end(format))
}

/// The width that a format asks for: the integer between `%` and `f`, sign
/// included, and 1 where nothing stands there or what stands there is no
/// integer of 64 bits.
pub open spec fn format_width(format: Seq<char>) -> int {
    match parsed_i64(width_token(format)) {
        Some(width) => width as int,
        None => 1,
    }
}

/// A format that can be used: it holds a directive, and what stands between
/// the `%` and the `f` of the directive is empty or a decimal integer, with
/// or without a sign.
pub open spec fn is_format(format: Seq<char>) -> bool {
    has_directive(format) && (width_token(format).len() == 0 || signed_decimal(
        width_token(format),
    ) is Some)
}

/// A number written through a format: the text before the directive, the
/// number padded to the directive's width, and the text after it.
pub open spec fn formatted(
    value: Seq<char>,
    unit: Seq<char>,
    suffix: Seq<char>,
    format: Seq<char>,
) -> Seq<char> {
    format.take(directive_start(format)) + padded(value, unit, suffix, format_width(format))
        + format.skip(directive_end(format) + 1)
}

/// Digits in groups of three, counted from the right and joined by commas.
pub open spec fn group_digits(digits: Seq<char>) -> Seq<char>
    decreases digits.len(),
{
    if digits.len() <= 3 {
        digits
    } else {
        group_digits(digits.take(digits.len() - 3)) + seq![','] + digits.skip(digits.len() - 3)
    }
}

/// The end of the run of digits that starts at `from`.
pub open spec fn digits_end(s: Seq<char>, from: int) -> int
    decreases s.len() - from,
{
    if 0 <= from < s.len() && is_digit(s[from]) {
        digits_end(s, from + 1)
    } else {
        from
    }
}

/// The length of the sign in front of a number: 1 for a leading `-`, else 0.
pub open spec fn sign_len(s: Seq<char>) -> int {
    if s.len() > 0 && s[0] == '-' {
        1
    } else {
        0
    }
}

/// A number with its integer digits grouped. The sign in front and whatever
/// follows the integer digits, a fraction for one, are carried over as they
/// are.
pub open spec fn grouped(s: Seq<char>) -> Seq<char> {
    let start = sign_len(s);
    let end = digits_end(s, start);
    s.take(start) + group_digits(s.subrange(start, end)) + s.skip(end)
}

/// The test that tells a comma from any other character.
pub open spec fn not_comma() -> spec_fn(char) -> bool {
    |c: char| c != ','
}

/// A text with its commas taken out.
pub open spec fn without_commas(s: Seq<char>) -> Seq<char> {
    s.filter(not_comma())
}

/// Pads a number and its unit with blanks to `n_padding` bytes and appends
/// `suffix`: blanks in front for a width of zero or more, blanks at the very
/// end for a negative one. A content that fills the width gets no blanks.
pub fn padding(res: &String, res_unit: &String, suffix: &String, n_padding: i64) -> (out: String)
    ensures
        out@ == padded(res@, res_unit@, suffix@, n_padding as int),
        byte_len(res@) + byte_len(res_unit@) >= magnitude(n_padding as int) ==> out@ == res@
            + res_unit@ + suffix@,
{
    let number_len = res.as_str().as_bytes().len();
    let unit_len = res_unit.as_str().as_bytes().len();
    let content: u128 = number_len as u128 + unit_len as u128;
    let target: u128 = if n_padding < 0 {
        (-(n_padding as i128)) as u128
    } else {
        n_padding as u128
    };
    let count: u128 = if target > content {
        target - content
    } else {
        0
    };
    let mut out = String::new();
    if n_padding >= 0 {
        push_spaces(&mut out, count);
    }
    out.append(res.as_str());
    out.append(res_unit.as_str());
    out.append(suffix.as_str());
    if n_padding < 0 {
        push_spaces(&mut out, count);
    }
    out
}

fn push_spaces(out: &mut String, count: u128)
    ensures
        final(out)@ == old(out)@ + spaces(count as nat),
{
    let mut done: u128 = 0;
    while done < count
        invariant
            done <= count,
            out@ == old(out)@ + spaces(done as nat),
        decreases count - done,
    {
        out.push(' ');
        done += 1;
    }
}

/// Tells whether a format can be used.
pub fn check_format(format: &str) -> (usable: bool)
    ensures
        usable == is_format(format@),
{
    let chars = chars_of(format);
    let start = find_from(&chars, '%', 0);
    if start == chars.len() {
        return false;
    }
    let end = find_from(&chars, 'f', start);
    if end == chars.len() {
        return false;
    }
    proof {
        lemma_first_index_from(chars@, '%', 0);
        lemma_first_index_from(chars@, 'f', start as int);
    }
    let token = width_token_of(&chars, start, end);
    token.len() == 0 || is_signed_decimal(&token)
}

fn width_token_of(format: &Vec<char>, start: usize, end: usize) -> (token: Vec<char>)
    requires
        start < end < format.len(),
    ensures
        token@ == format@.subrange(start + 1, end as int),
{
    let mut token: Vec<char> = Vec::new();
    let mut i: usize = start + 1;
    while i < end
        invariant
            start + 1 <= i <= end < format.len(),
            token@ == format@.subrange(start + 1, i as int),
        decreases end - i,
    {
        token.push(format[i]);
        i += 1;
    }
    token
}

/// Writes a number through a printf-style format: the text before the first
/// `%`, the number padded to the width that stands between that `%` and the
/// next `f`, and the text after that `f`. The width is 1 where nothing or no
/// 64-bit integer stands there.
pub fn formatting(res: &String, res_unit: &String, suffix: &String, format: String) -> (out:
    String)
    requires
        has_directive(format@),
    ensures
        out@ == formatted(res@, res_unit@, suffix@, format@),
{
    let format = chars_of(format.as_str());
    let start = find_from(&format, '%', 0);
    let end = find_from(&format, 'f', start);
    proof {
        lemma_first_index_from(format@, '%', 0);
        lemma_first_index_from(format@, 'f', start as int);
    }
    let token = width_token_of(&format, start, end);
    let width: i64 = match parse_i64(&token) {
        Some(width) => width,
        None => 1,
    };
    let body = padding(res, res_unit, suffix, width);
    let mut out = String::new();
    push_range(&mut out, &format, 0, start);
    out.append(body.as_str());
    push_range(&mut out, &format, end + 1, format.len());
    out
}

/// Groups the integer digits of a number by three with commas, from the
/// right. A leading `-` and whatever follows the integer digits stay as they
/// are.
pub fn grouping(number: &String) -> (out: String)
    ensures
        out@ == grouped(number@),
{
    let chars = chars_of(number.as_str());
    let start: usize = if chars.len() > 0 && chars[0] == '-' {
        1
    } else {
        0
    };
    let mut end: usize = start;
    while end < chars.len() && is_digit_char(chars[end])
        invariant
            start <= end <= chars.len(),
            digits_end(chars@, start as int) == digits_end(chars@, end as int),
        decreases chars.len() - end,
    {
        end += 1;
    }
    let count = end - start;
    let remainder = count.modulo(3);
    let lead: usize = if count == 0 {
        0
    } else if remainder == 0 {
        3
    } else {
        remainder
    };
    let mut out = String::new();
    push_range(&mut out, &chars, 0, start + lead);
    let mut i: usize = start + lead;
    while i < end
        invariant
            start <= i <= end <= chars.len(),
            (end - i) % 3 == 0,
            i > start || end == start,
            out@ == chars@.take(start as int) + group_digits(
                chars@.subrange(start as int, i as int),
            ),
        decreases end - i,
    {
        out.push(',');
        push_range(&mut out, &chars, i, i + 3);
        proof {
            let longer = chars@.subrange(start as int, i + 3);
            assert(longer.take(longer.len() - 3) == chars@.subrange(start as int, i as int));
        }
        i += 3;
    }
    push_range(&mut out, &chars, end, chars.len());
    out
}

/// Filtering leaves a text without the filtered character as it is.
proof fn lemma_without_commas_id(s: Seq<char>)
    requires
        forall|i: int| 0 <= i < s.len() ==> s[i] != ',',
    ensures
        without_commas(s) == s,
    decreases s.len(),
{
    reveal(Seq::filter);
    if s.len() > 0 {
        lemma_without_commas_id(s.drop_last());
    }
}

/// Taking the commas out of grouped digits gives the digits back.
pub proof fn lemma_group_digits_round_trip(digits: Seq<char>)
    requires
        forall|i: int| 0 <= i < digits.len() ==> digits[i] != ',',
    ensures
        without_commas(group_digits(digits)) == digits,
    decreases digits.len(),
{
    if digits.len() <= 3 {
        lemma_without_commas_id(digits);
    } else {
        let head = digits.take(digits.len() - 3);
        let tail = digits.skip(digits.len() - 3);
        lemma_group_digits_round_trip(head);
        lemma_without_commas_id(tail);
        Seq::filter_distributes_over_add(group_digits(head), seq![','], not_comma());
        Seq::filter_distributes_over_add(group_digits(head) + seq![','], tail, not_comma());
        assert(without_commas(seq![',']) == Seq::<char>::empty()) by {
            reveal_with_fuel(Seq::filter, 2);
        }
    }
}

/// Grouping puts in commas and nothing else: taking the commas out of a
/// grouped number gives back the number, as long as it held none before.
pub proof fn lemma_grouping_round_trip(number: Seq<char>)
    requires
        forall|i: int| 0 <= i < number.len() ==> number[i] != ',',
    ensures
        without_commas(grouped(number)) == number,
{
    let start = sign_len(number);
    lemma_digits_end(number, start);
    let end = digits_end(number, start);
    let sign = number.take(start);
    let digits = number.subrange(start, end);
    let rest = number.skip(end);
    lemma_without_commas_id(sign);
    lemma_group_digits_round_trip(digits);
    lemma_without_commas_id(rest);
    Seq::filter_distributes_over_add(sign, group_digits(digits), not_comma());
    Seq::filter_distributes_over_add(sign + group_digits(digits), rest, not_comma());
}

/// The run of digits that starts at `from` ends between `from` and the end
/// of the text.
pub proof fn lemma_digits_end(s: Seq<char>, from: int)
    requires
        0 <= from <= s.len(),
    ensures
        from <= digits_end(s, from) <= s.len(),
    decreases s.len() - from,
{
    if from < s.len() && is_digit(s[from]) {
        lemma_digits_end(s, from + 1);
    }
}

} // verus!
