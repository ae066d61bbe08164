//! Routing the fields of a line: the fields in range are replaced by their
//! conversions, every other token is written as it stands.
//!
//! The conversion of a field is the caller's work. The caller asks
//! [`select_fields`] for the fields in range, converts each, and hands the
//! outcomes to [`numfmt`], which writes the line.

use vstd::prelude::*;
use crate::fields::{
    are_runs,
    contents,
    field_count,
    in_range,
    is_delimiter_run,
    is_field,
    joined,
    last_is_selected,
    lemma_tokens_join,
    selected,
    split_tokens,
    texts,
    tokens_of,
};
use crate::options::{error_text, ConvertError, FieldRange, InvalidMode, Options};
use crate::text::{chars_of, push_all, string_of};

verus! {

/// Where the writing of a line stands after some of its tokens.
pub struct RouterState {
    /// What has been written.
    pub text: Seq<char>,
    /// The number of fields seen.
    pub fields: nat,
    /// The number of outcomes used up.
    pub used: nat,
    /// The error that ends the run, if one has come up.
    pub failure: Option<ConvertError>,
    /// Whether the line has been given up.
    pub stopped: bool,
}

/// What is written for a line, and the error that ends the run, if any.
#[derive(Clone, Debug, PartialEq, Eq)]
pub struct LineOutput {
    pub text: String,
    pub failure: Option<ConvertError>,
}

/// The state before the first token.
pub open spec fn initial_state() -> RouterState {
    RouterState { text: Seq::empty(), fields: 0, used: 0, failure: None, stopped: false }
}

/// The state after one more token.
///
/// A run of delimiters and a field out of range are written as they stand.
/// A field in range takes the next outcome: a conversion is written in the
/// field's place; an error ends the run under `Fail`, is written in the
/// field's place under `Warn`, leaves nothing written for the field under
/// `Ignore`, and ends the line under `Abort`. Once the line is given up,
/// nothing changes any more.
pub open spec fn state_after(
    state: RouterState,
    token: Seq<char>,
    delimiter: char,
    range: FieldRange,
    mode: InvalidMode,
    outcomes: Seq<Result<String, ConvertError>>,
) -> RouterState {
    if state.stopped {
        state
    } else if is_delimiter_run(token, delimiter) {
        RouterState { text: state.text + token, ..state }
    } else if !in_range(range, state.fields + 1) {
        RouterState { text: state.text + token, fields: state.fields + 1, ..state }
    } else {
        let next = RouterState { fields: state.fields + 1, used: state.used + 1, ..state };
        match outcomes[state.used as int] {
            Ok(converted) => RouterState { text: state.text + converted@, ..next },
            Err(error) => match mode {
                InvalidMode::Fail => RouterState { failure: Some(error), stopped: true, ..next },
                InvalidMode::Warn => RouterState { text: state.text + error_text(error), ..next },
                InvalidMode::Ignore => next,
                InvalidMode::Abort => RouterState { stopped: true, ..next },
            },
        }
    }
}

/// The state after all of some tokens, taken from left to right.
pub open spec fn routed(
    tokens: Seq<Seq<char>>,
    delimiter: char,
    range: FieldRange,
    mode: InvalidMode,
    outcomes: Seq<Result<String, ConvertError>>,
) -> RouterState
    decreases tokens.len(),
{
    if tokens.len() == 0 {
        initial_state()
    } else {
        state_after(
            routed(tokens.drop_last(), delimiter, range, mode, outcomes),
            tokens.last(),
            delimiter,
            range,
            mode,
            outcomes,
        )
    }
}

/// An outcome that is the conversion of a field into itself.
pub open spec fn is_unchanged(outcome: Result<String, ConvertError>, field: Seq<char>) -> bool {
    outcome matches Ok(converted) && converted@ == field
}

/// Outcomes that convert each of some fields into itself.
pub open spec fn leaves_unchanged(
    outcomes: Seq<Result<String, ConvertError>>,
    fields: Seq<Seq<char>>,
) -> bool {
    forall|k: int| 0 <= k < fields.len() ==> is_unchanged(#[trigger] outcomes[k], fields[k])
}

/// A line that has been given up stays as it is, whatever follows.
pub proof fn lemma_stopped_stays(
    tokens: Seq<Seq<char>>,
    upto: int,
    delimiter: char,
    range: FieldRange,
    mode: InvalidMode,
    outcomes: Seq<Result<String, ConvertError>>,
)
    requires
        0 <= upto <= tokens.len(),
        routed(tokens.take(upto), delimiter, range, mode, outcomes).stopped,
    ensures
        routed(tokens, delimiter, range, mode, outcomes) == routed(
            tokens.take(upto),
            delimiter,
            range,
            mode,
            outcomes,
        ),
    decreases tokens.len(),
{
    if upto == tokens.len() {
        assert(tokens.take(upto) == tokens);
    } else {
        assert(tokens.drop_last().take(upto) == tokens.take(upto));
        lemma_stopped_stays(tokens.drop_last(), upto, delimiter, range, mode, outcomes);
    }
}

/// The fields in range among the first tokens of a line are among the
/// fields in range of the whole line.
pub proof fn lemma_selected_grows(
    tokens: Seq<Seq<char>>,
    upto: int,
    delimiter: char,
    range: FieldRange,
)
    requires
        0 <= upto <= tokens.len(),
    ensures
        selected(tokens.take(upto), delimiter, range).len() <= selected(
            tokens,
            delimiter,
            range,
        ).len(),
        forall|k: int|
            0 <= k < selected(tokens.take(upto), delimiter, range).len() ==> #[trigger] selected(
                tokens.take(upto),
                delimiter,
                range,
            )[k] == selected(tokens, delimiter, range)[k],
    decreases tokens.len(),
{
    if upto == tokens.len() {
        assert(tokens.take(upto) == tokens);
    } else {
        assert(tokens.drop_last().take(upto) == tokens.take(upto));
        lemma_selected_grows(tokens.drop_last(), upto, delimiter, range);
    }
}

/// While a line has not been given up, the state counts its fields and has
/// used one outcome for each field in range.
pub proof fn lemma_routed_counts(
    tokens: Seq<Seq<char>>,
    delimiter: char,
    range: FieldRange,
    mode: InvalidMode,
    outcomes: Seq<Result<String, ConvertError>>,
)
    ensures
        !routed(tokens, delimiter, range, mode, outcomes).stopped ==> routed(
            tokens,
            delimiter,
            range,
            mode,
            outcomes,
        ).fields == field_count(tokens, delimiter) && routed(
            tokens,
            delimiter,
            range,
            mode,
            outcomes,
        ).used == selected(tokens, delimiter, range).len(),
        !routed(tokens, delimiter, range, mode, outcomes).stopped ==> routed(
            tokens,
            delimiter,
            range,
            mode,
            outcomes,
        ).failure is None,
    decreases tokens.len(),
{
    if tokens.len() > 0 {
        lemma_routed_counts(tokens.drop_last(), delimiter, range, mode, outcomes);
    }
}

/// A line whose fields in range are all converted into themselves is written
/// as it came: every character outside those fields passes through.
pub proof fn lemma_identity_conversion(
    line: Seq<char>,
    delimiter: char,
    range: FieldRange,
    mode: InvalidMode,
    outcomes: Seq<Result<String, ConvertError>>,
)
    requires
        leaves_unchanged(outcomes, selected(tokens_of(line, delimiter), delimiter, range)),
    ensures
        routed(tokens_of(line, delimiter), delimiter, range, mode, outcomes).text == line,
        routed(tokens_of(line, delimiter), delimiter, range, mode, outcomes).failure is None,
{
    let tokens = tokens_of(line, delimiter);
    assert(tokens.take(tokens.len() as int) == tokens);
    lemma_identity_prefix(tokens, tokens.len() as int, delimiter, range, mode, outcomes);
    lemma_tokens_join(line, delimiter);
}

proof fn lemma_identity_prefix(
    tokens: Seq<Seq<char>>,
    upto: int,
    delimiter: char,
    range: FieldRange,
    mode: InvalidMode,
    outcomes: Seq<Result<String, ConvertError>>,
)
    requires
        0 <= upto <= tokens.len(),
        leaves_unchanged(outcomes, selected(tokens, delimiter, range)),
    ensures
        routed(tokens.take(upto), delimiter, range, mode, outcomes).text == joined(
            tokens.take(upto),
        ),
        !routed(tokens.take(upto), delimiter, range, mode, outcomes).stopped,
        routed(tokens.take(upto), delimiter, range, mode, outcomes).failure is None,
    decreases upto,
{
    if upto > 0 {
        let shorter = tokens.take(upto - 1);
        let longer = tokens.take(upto);
        assert(longer.drop_last() == shorter);
        lemma_identity_prefix(tokens, upto - 1, delimiter, range, mode, outcomes);
        lemma_routed_counts(shorter, delimiter, range, mode, outcomes);
        lemma_selected_grows(tokens, upto, delimiter, range);
        let before = routed(shorter, delimiter, range, mode, outcomes);
        if last_is_selected(longer, delimiter, range) {
            let k = selected(shorter, delimiter, range).len() as int;
            assert(selected(longer, delimiter, range)[k] == longer.last());
        }
    }
}

/// The fields of a line that lie in the range of fields to convert, in
/// their order.
pub fn select_fields(line: &str, delimiter: char, range: FieldRange) -> (fields: Vec<String>)
    ensures
        texts(fields@) == selected(tokens_of(line@, delimiter), delimiter, range),
{
    let chars = chars_of(line);
    let tokens = split_tokens(&chars, delimiter);
    let mut fields: Vec<String> = Vec::new();
    let mut count: usize = 0;
    let mut i: usize = 0;
    while i < tokens.len()
        invariant
            i <= tokens.len(),
            contents(tokens@) == tokens_of(line@, delimiter),
            are_runs(contents(tokens@), delimiter),
            count == field_count(contents(tokens@).take(i as int), delimiter),
            count <= i,
            texts(fields@) == selected(contents(tokens@).take(i as int), delimiter, range),
        decreases tokens.len() - i,
    {
        let token = &tokens[i];
        assert(contents(tokens@).take(i + 1).drop_last() == contents(tokens@).take(i as int));
        assert(contents(tokens@)[i as int] == token@);
        if is_field(token, delimiter) {
            count += 1;
            if range.start <= count && count <= range.end {
                fields.push(string_of(token));
            }
        }
        i += 1;
    }
    assert(contents(tokens@).take(i as int) == contents(tokens@));
    fields
}

/// Writes a line: each field in range is replaced by its conversion, every
/// other token is written as it stands. `outcomes` holds, for each field in
/// range and in their order, its conversion or the error that came of it.
/// What an error does is decided by the invalid mode.
pub fn numfmt(
    line: String,
    options: &Options,
    outcomes: &Vec<Result<String, ConvertError>>,
) -> (out: LineOutput)
    requires
        outcomes.len() == selected(
            tokens_of(line@, options.delimiter),
            options.delimiter,
            options.fields,
        ).len(),
    ensures
        out.text@ == routed(
            tokens_of(line@, options.delimiter),
            options.delimiter,
            options.fields,
            options.invalid,
            outcomes@,
        ).text,
        out.failure == routed(
            tokens_of(line@, options.delimiter),
            options.delimiter,
            options.fields,
            options.invalid,
            outcomes@,
        ).failure,
{
    let delimiter = options.delimiter;
    let range = options.fields;
    let mode = options.invalid;
    let chars = chars_of(line.as_str());
    let tokens = split_tokens(&chars, delimiter);
    let mut text = String::new();
    let mut count: usize = 0;
    let mut used: usize = 0;
    let mut i: usize = 0;
    while i < tokens.len()
        invariant
            i <= tokens.len(),
            delimiter == options.delimiter,
            range == options.fields,
            mode == options.invalid,
            contents(tokens@) == tokens_of(line@, delimiter),
            are_runs(contents(tokens@), delimiter),
            outcomes.len() == selected(contents(tokens@), delimiter, range).len(),
            count <= i,
            used == selected(contents(tokens@).take(i as int), delimiter, range).len(),
            routed(contents(tokens@).take(i as int), delimiter, range, mode, outcomes@)
                == (RouterState {
                text: text@,
                fields: count as nat,
                used: used as nat,
                failure: None,
                stopped: false,
            }),
            count == field_count(contents(tokens@).take(i as int), delimiter),
        decreases tokens.len() - i,
    {
        let token = &tokens[i];
        assert(contents(tokens@).take(i + 1).drop_last() == contents(tokens@).take(i as int));
        assert(contents(tokens@)[i as int] == token@);
        proof {
            lemma_selected_grows(contents(tokens@), i + 1, delimiter, range);
        }
        if !is_field(token, delimiter) {
            push_all(&mut text, token);
        } else {
            count += 1;
            if !(range.start <= count && count <= range.end) {
                push_all(&mut text, token);
            } else {
                let outcome = &outcomes[used];
                used += 1;
                match outcome {
                    Ok(converted) => {
                        text.append(converted.as_str());
                    },
                    Err(error) => {
                        match mode {
                            InvalidMode::Fail => {
                                proof {
                                    lemma_stopped_stays(
                                        contents(tokens@),
                                        i + 1,
                                        delimiter,
                                        range,
                                        mode,
                                        outcomes@,
                                    );
                                }
                                return LineOutput { text, failure: Some(*error) };
                            },
                            InvalidMode::Warn => {
                                let message = error.message();
                                text.append(message.as_str());
                            },
                            InvalidMode::Ignore => {},
                            InvalidMode::Abort => {
                                proof {
                                    lemma_stopped_stays(
                                        contents(tokens@),
                                        i + 1,
                                        delimiter,
                                        range,
                                        mode,
                                        outcomes@,
                                    );
                                }
                                return LineOutput { text, failure: None };
                            },
                        }
                    },
                }
            }
        }
        i += 1;
    }
    assert(contents(tokens@).take(i as int) == contents(tokens@));
    LineOutput { text, failure: None }
}

} // verus!
