//! The fields of a line: which of them a range names, and how a line is cut
//! into them.
//!
//! A line is a sequence of tokens. A token is a run of delimiters or a run
//! of other characters, as long as it can be: two neighbours are never of
//! the same kind. The runs of other characters are the fields, counted from
//! one.

use vstd::prelude::*;
use crate::numbers::{parse_usize, parsed_usize};
use crate::options::FieldRange;
use crate::text::{chars_of, find_from, first_index, string_of};

verus! {

/// One end of a range as written: the number, and the largest `usize` where
/// the text is no number.
pub open spec fn bound_of(s: Seq<char>) -> usize {
    match parsed_usize(s) {
        Some(bound) => bound,
        None => usize::MAX,
    }
}

/// The start of a range as written before the dash: the first field where
/// nothing is written, else the number, and the largest `usize` where the
/// text is no number.
pub open spec fn start_of(s: Seq<char>) -> usize {
    if s.len() == 0 {
        1
    } else {
        bound_of(s)
    }
}

/// The two ends of a range as written. With a dash the ends stand on its two
/// sides: `N-M` reaches from `N` to `M`, `-M` from the first field to `M`,
/// and `N-` from `N` to the end of the line. Without a dash a number `N`
/// reaches from `N` to the end of the line, and anything else names every
/// field.
pub open spec fn field_bounds(s: Seq<char>) -> (usize, usize) {
    let dash = first_index(s, '-');
    if dash < s.len() {
        (start_of(s.take(dash)), bound_of(s.skip(dash + 1)))
    } else {
        match parsed_usize(s) {
            Some(bound) => (bound, usize::MAX),
            None => (1, usize::MAX),
        }
    }
}

/// The range between two ends.
pub open spec fn range_of(bounds: (usize, usize)) -> FieldRange {
    FieldRange { start: bounds.0, end: bounds.1 }
}

/// Whether the field with the given number lies in the range.
pub open spec fn in_range(range: FieldRange, field: nat) -> bool {
    range.start <= field <= range.end
}

/// The tokens of a line, from left to right. A character joins the token
/// before it when both are delimiters or neither is, and starts a token of
/// its own otherwise.
pub open spec fn tokens_of(line: Seq<char>, delimiter: char) -> Seq<Seq<char>>
    decreases line.len(),
{
    if line.len() == 0 {
        Seq::empty()
    } else {
        let before = tokens_of(line.drop_last(), delimiter);
        let c = line.last();
        if line.len() >= 2 && (line[line.len() - 2] == delimiter) == (c == delimiter) {
            before.drop_last().push(before.last().push(c))
        } else {
            before.push(seq![c])
        }
    }
}

/// A token that is a run of delimiters: every character of it is the
/// delimiter.
pub open spec fn is_delimiter_run(token: Seq<char>, delimiter: char) -> bool {
    forall|i: int| 0 <= i < token.len() ==> #[trigger] token[i] == delimiter
}

/// A run: one character or more, all delimiters or none of them.
pub open spec fn is_run(token: Seq<char>, delimiter: char) -> bool {
    token.len() > 0 && forall|i: int|
        0 <= i < token.len() ==> (#[trigger] token[i] == delimiter) == (token[0] == delimiter)
}

/// Tokens that are runs, each of them.
pub open spec fn are_runs(tokens: Seq<Seq<char>>, delimiter: char) -> bool {
    forall|k: int| 0 <= k < tokens.len() ==> is_run(#[trigger] tokens[k], delimiter)
}

/// Tokens put back together.
pub open spec fn joined(tokens: Seq<Seq<char>>) -> Seq<char>
    decreases tokens.len(),
{
    if tokens.len() == 0 {
        Seq::empty()
    } else {
        joined(tokens.drop_last()) + tokens.last()
    }
}

/// The number of fields among tokens.
pub open spec fn field_count(tokens: Seq<Seq<char>>, delimiter: char) -> nat
    decreases tokens.len(),
{
    if tokens.len() == 0 {
        0
    } else if is_delimiter_run(tokens.last(), delimiter) {
        field_count(tokens.drop_last(), delimiter)
    } else {
        field_count(tokens.drop_last(), delimiter) + 1
    }
}

/// Whether the last of some tokens is a field that lies in the range.
pub open spec fn last_is_selected(
    tokens: Seq<Seq<char>>,
    delimiter: char,
    range: FieldRange,
) -> bool {
    tokens.len() > 0 && !is_delimiter_run(tokens.last(), delimiter) && in_range(
        range,
        field_count(tokens, delimiter),
    )
}

/// The fields among tokens that lie in the range, in their order.
pub open spec fn selected(tokens: Seq<Seq<char>>, delimiter: char, range: FieldRange) -> Seq<
    Seq<char>,
>
    decreases tokens.len(),
{
    if tokens.len() == 0 {
        Seq::empty()
    } else if last_is_selected(tokens, delimiter, range) {
        selected(tokens.drop_last(), delimiter, range).push(tokens.last())
    } else {
        selected(tokens.drop_last(), delimiter, range)
    }
}

/// The texts of a vector of strings.
pub open spec fn texts(strings: Seq<String>) -> Seq<Seq<char>> {
    Seq::new(strings.len(), |i: int| strings[i]@)
}

/// The contents of a vector of character vectors.
pub open spec fn contents(tokens: Seq<Vec<char>>) -> Seq<Seq<char>> {
    Seq::new(tokens.len(), |i: int| tokens[i]@)
}

/// A line has tokens exactly when it has characters. Every token is a run,
/// and the last token is of the kind of the line's last character.
pub proof fn lemma_tokens_shape(line: Seq<char>, delimiter: char)
    ensures
        tokens_of(line, delimiter).len() == 0 <==> line.len() == 0,
        are_runs(tokens_of(line, delimiter), delimiter),
        line.len() > 0 ==> (tokens_of(line, delimiter).last()[0] == delimiter) == (line.last()
            == delimiter),
    decreases line.len(),
{
    if line.len() > 0 {
        lemma_tokens_shape(line.drop_last(), delimiter);
    }
}

/// Two neighbours among the tokens of a line are of different kinds: one is
/// a run of delimiters, the other is not.
pub proof fn lemma_tokens_alternate(line: Seq<char>, delimiter: char)
    ensures
        forall|k: int|
            0 < k < tokens_of(line, delimiter).len() ==> (#[trigger] tokens_of(
                line,
                delimiter,
            )[k][0] == delimiter) != (tokens_of(line, delimiter)[k - 1][0] == delimiter),
    decreases line.len(),
{
    if line.len() > 0 {
        lemma_tokens_alternate(line.drop_last(), delimiter);
        lemma_tokens_shape(line.drop_last(), delimiter);
    }
}

/// The tokens of a line, put back together, are the line.
pub proof fn lemma_tokens_join(line: Seq<char>, delimiter: char)
    ensures
        joined(tokens_of(line, delimiter)) == line,
    decreases line.len(),
{
    if line.len() > 0 {
        lemma_tokens_join(line.drop_last(), delimiter);
        lemma_tokens_shape(line.drop_last(), delimiter);
        let before = tokens_of(line.drop_last(), delimiter);
        let c = line.last();
        if line.len() >= 2 && (line[line.len() - 2] == delimiter) == (c == delimiter) {
            let after = before.drop_last().push(before.last().push(c));
            assert(after.drop_last() == before.drop_last());
        } else {
            let after = before.push(seq![c]);
            assert(after.drop_last() == before);
        }
        assert(line.drop_last().push(c) == line);
    }
}

/// Reads the two ends of a field range: `N`, `N-`, `-M` or `N-M`. A start
/// that is left out is the first field.
pub fn get_fields(fields: String) -> (bounds: (usize, usize))
    ensures
        bounds == field_bounds(fields@),
{
    let chars = chars_of(fields.as_str());
    let dash = find_from(&chars, '-', 0);
    if dash < chars.len() {
        let mut left: Vec<char> = Vec::new();
        let mut right: Vec<char> = Vec::new();
        let mut i: usize = 0;
        while i < dash
            invariant
                i <= dash < chars.len(),
                left@ == chars@.take(i as int),
            decreases dash - i,
        {
            left.push(chars[i]);
            i += 1;
        }
        i = dash + 1;
        while i < chars.len()
            invariant
                dash < i <= chars.len(),
                right@ == chars@.subrange(dash + 1, i as int),
            decreases chars.len() - i,
        {
            right.push(chars[i]);
            i += 1;
        }
        let start = if left.len() == 0 {
            1
        } else {
            match parse_usize(&left) {
                Some(bound) => bound,
                None => usize::MAX,
            }
        };
        let end = match parse_usize(&right) {
            Some(bound) => bound,
            None => usize::MAX,
        };
        (start, end)
    } else {
        match parse_usize(&chars) {
            Some(bound) => (bound, usize::MAX),
            None => (1, usize::MAX),
        }
    }
}

/// Reads a field range: the range between the two ends that
/// [`get_fields`] reads.
pub fn field_range(fields: &str) -> (range: FieldRange)
    ensures
        range == range_of(field_bounds(fields@)),
{
    let (start, end) = get_fields(fields.to_string());
    FieldRange { start, end }
}

/// Tells a field from a run of delimiters.
pub(crate) fn is_field(token: &Vec<char>, delimiter: char) -> (field: bool)
    requires
        is_run(token@, delimiter),
    ensures
        field == !is_delimiter_run(token@, delimiter),
{
    token[0] != delimiter
}

pub(crate) fn split_tokens(chars: &Vec<char>, delimiter: char) -> (tokens: Vec<Vec<char>>)
    ensures
        contents(tokens@) == tokens_of(chars@, delimiter),
        are_runs(contents(tokens@), delimiter),
{
    let mut tokens: Vec<Vec<char>> = Vec::new();
    let mut current: Vec<char> = Vec::new();
    let mut i: usize = 0;
    while i < chars.len()
        invariant
            i <= chars.len(),
            i == 0 ==> tokens.len() == 0 && current.len() == 0,
            i > 0 ==> current.len() > 0 && contents(tokens@).push(current@) == tokens_of(
                chars@.take(i as int),
                delimiter,
            ),
        decreases chars.len() - i,
    {
        let c = chars[i];
        let ghost line = chars@.take(i + 1);
        let ghost before = contents(tokens@).push(current@);
        assert(line.drop_last() == chars@.take(i as int));
        assert(line.last() == c);
        assert(i > 0 ==> line[line.len() - 2] == chars@[i - 1]);
        if i > 0 && (chars[i - 1] == delimiter) == (c == delimiter) {
            current.push(c);
            assert(contents(tokens@).push(current@) == before.drop_last().push(
                before.last().push(c),
            ));
        } else {
            if i > 0 {
                tokens.push(current);
                assert(contents(tokens@) == before);
            } else {
                assert(contents(tokens@) == tokens_of(line.drop_last(), delimiter));
            }
            current = Vec::new();
            current.push(c);
            assert(current@ == seq![c]);
        }
        i += 1;
        assert(line == chars@.take(i as int));
    }
    assert(chars@.take(i as int) == chars@);
    if i > 0 {
        let ghost before = contents(tokens@).push(current@);
        tokens.push(current);
        assert(contents(tokens@) == before);
    }
    proof {
        lemma_tokens_shape(chars@, delimiter);
    }
    tokens
}

/// Cuts a line into its tokens.
pub fn tokenize(line: &str, delimiter: char) -> (tokens: Vec<String>)
    ensures
        texts(tokens@) == tokens_of(line@, delimiter),
{
    let chars = chars_of(line);
    let parts = split_tokens(&chars, delimiter);
    let mut tokens: Vec<String> = Vec::new();
    let mut i: usize = 0;
    while i < parts.len()
        invariant
            i <= parts.len(),
            texts(tokens@) == contents(parts@).take(i as int),
        decreases parts.len() - i,
    {
        let ghost before = texts(tokens@);
        tokens.push(string_of(&parts[i]));
        i += 1;
        assert(texts(tokens@) == before.push(parts@[i - 1]@));
        assert(contents(parts@).take(i as int) == contents(parts@).take(i - 1).push(
            parts@[i - 1]@,
        ));
    }
    assert(contents(parts@).take(i as int) == contents(parts@));
    tokens
}

} // verus!
