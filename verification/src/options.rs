//! What a conversion is configured with, and the ways it can fail.

use vstd::prelude::*;
use crate::export::{check_format, is_format};
use crate::text::{chars_equal, chars_of};

verus! {

/// How the suffix of an input number is read.
#[derive(Clone, Copy, Debug, PartialEq, Eq, Structural)]
pub enum UnitFamily {
    /// No scaling: a number with a suffix is refused.
    Unscaled,
    /// Decimal: `K` is 10^3.
    Si,
    /// Binary, written with one letter: `K` is 2^10.
    Iec,
    /// Binary, written with two letters: `Ki` is 2^10.
    IecI,
    /// Decimal for a one-letter suffix, binary for a two-letter one, and
    /// decimal for a number without suffix when a target family is asked
    /// for.
    Auto,
}

/// How a scaled number is brought to an integer.
#[derive(Clone, Copy, Debug, PartialEq, Eq, Structural)]
pub enum RoundingPolicy {
    /// Up, to the next integer that is not below.
    Ceiling,
    /// Down, to the next integer that is not above.
    Floor,
    /// To the next integer further from zero.
    AwayFromZero,
    /// To the next integer nearer to zero.
    TowardZero,
    /// To the nearest integer, halves away from zero.
    Nearest,
}

/// What happens to a field that cannot be converted.
#[derive(Clone, Copy, Debug, PartialEq, Eq, Structural)]
pub enum InvalidMode {
    /// The whole run stops with the error.
    Fail,
    /// The error's text is written in place of the field.
    Warn,
    /// Nothing is written for the field.
    Ignore,
    /// The rest of the line is dropped.
    Abort,
}

/// Why a field could not be converted.
#[derive(Clone, Copy, Debug, PartialEq, Eq, Structural)]
pub enum ConvertError {
    /// The field does not start with a number.
    EmptyNumber,
    /// The leading digits, points and commas of the field do not make a
    /// number.
    InvalidNumber,
    /// The field has a suffix where none is accepted.
    InvalidUnit,
    /// The format has no directive, or one whose width is no integer.
    InvalidFormat,
}

/// The fields of a line to convert, counted from one, both ends included.
#[derive(Clone, Copy, Debug, PartialEq, Eq, Structural)]
pub struct FieldRange {
    pub start: usize,
    pub end: usize,
}

/// How a converted number is written.
#[derive(Clone, Debug, PartialEq, Eq)]
pub struct FormattingSpec {
    /// Group the integer digits by three.
    pub grouping: bool,
    /// The width to pad to: to the right when zero or more, to the left
    /// when negative.
    pub padding: i64,
    /// A text appended to every number.
    pub suffix: String,
    /// A printf-style format that, when present, decides the width in place
    /// of `padding`.
    pub format: Option<String>,
}

/// A resolved configuration.
#[derive(Clone, Debug, PartialEq, Eq)]
pub struct Options {
    /// The family by which input suffixes are read.
    pub from: UnitFamily,
    /// The family whose suffix the output carries; `None` keeps the suffix
    /// of the input.
    pub to: Option<UnitFamily>,
    /// The size of the unit in which the output is counted.
    pub unit_size: u64,
    /// The rounding applied after the division by `unit_size`, if any.
    pub round: Option<RoundingPolicy>,
    /// How the number is written.
    pub formatting: FormattingSpec,
    /// The character that separates the fields of a line.
    pub delimiter: char,
    /// The fields to convert.
    pub fields: FieldRange,
    /// What to do with a field that cannot be converted.
    pub invalid: InvalidMode,
    /// The character that the input uses as its decimal point.
    pub decimal_point: char,
}

impl FormattingSpec {
    /// A format, where there is one, can be used.
    pub open spec fn well_formed(&self) -> bool {
        self.format matches Some(format) ==> is_format(format@)
    }

    /// Puts a formatting together. A format that cannot be used is refused.
    pub fn new(grouping: bool, padding: i64, suffix: String, format: Option<String>) -> (result:
        Result<FormattingSpec, ConvertError>)
        ensures
            match result {
                Ok(made) => made.well_formed() && made.grouping == grouping && made.padding
                    == padding && made.suffix == suffix && made.format == format,
                Err(error) => error == ConvertError::InvalidFormat && format is Some && !is_format(
                    format->Some_0@,
                ),
            },
    {
        let usable = match &format {
            Some(text) => check_format(text.as_str()),
            None => true,
        };
        if usable {
            Ok(FormattingSpec { grouping, padding, suffix, format })
        } else {
            Err(ConvertError::InvalidFormat)
        }
    }
}

impl Options {
    /// The formatting is well formed.
    pub open spec fn well_formed(&self) -> bool {
        self.formatting.well_formed()
    }
}

impl Default for FormattingSpec {
    /// No grouping, a width of 1, no suffix and no format.
    fn default() -> (made: FormattingSpec)
        ensures
            made.well_formed(),
            !made.grouping,
            made.padding == 1,
            made.suffix@ == Seq::<char>::empty(),
            made.format is None,
    {
        FormattingSpec { grouping: false, padding: 1, suffix: String::new(), format: None }
    }
}

impl Default for Options {
    /// What holds where nothing else is asked for: suffixes are detected,
    /// the output keeps the suffix of the input, the unit size is 1, nothing
    /// is rounded, the formatting is the default one, fields are separated
    /// by blanks, every field is converted, an error ends the run, and the
    /// decimal point is a point.
    fn default() -> (made: Options)
        ensures
            made.well_formed(),
            made.from == UnitFamily::Auto,
            made.to is None,
            made.unit_size == 1,
            made.round is None,
            !made.formatting.grouping,
            made.formatting.padding == 1,
            made.formatting.suffix@ == Seq::<char>::empty(),
            made.formatting.format is None,
            made.delimiter == ' ',
            made.fields == (FieldRange { start: 1, end: usize::MAX }),
            made.invalid == InvalidMode::Fail,
            made.decimal_point == '.',
    {
        Options {
            from: UnitFamily::Auto,
            to: None,
            unit_size: 1,
            round: None,
            formatting: FormattingSpec::default(),
            delimiter: ' ',
            fields: FieldRange { start: 1, end: usize::MAX },
            invalid: InvalidMode::Fail,
            decimal_point: '.',
        }
    }
}

/// The family that a name, in lowercase, stands for.
pub open spec fn unit_family_named(name: Seq<char>) -> Option<UnitFamily> {
    if name == "auto"@ {
        Some(UnitFamily::Auto)
    } else if name == "si"@ {
        Some(UnitFamily::Si)
    } else if name == "iec"@ {
        Some(UnitFamily::Iec)
    } else if name == "iec-i"@ {
        Some(UnitFamily::IecI)
    } else {
        None
    }
}

/// The rounding policy that a name, in lowercase, stands for.
pub open spec fn rounding_named(name: Seq<char>) -> Option<RoundingPolicy> {
    if name == "up"@ {
        Some(RoundingPolicy::Ceiling)
    } else if name == "down"@ {
        Some(RoundingPolicy::Floor)
    } else if name == "from-zero"@ {
        Some(RoundingPolicy::AwayFromZero)
    } else if name == "towards-zero"@ {
        Some(RoundingPolicy::TowardZero)
    } else if name == "nearest"@ {
        Some(RoundingPolicy::Nearest)
    } else {
        None
    }
}

/// The invalid mode that a name, in lowercase, stands for.
pub open spec fn invalid_mode_named(name: Seq<char>) -> Option<InvalidMode> {
    if name == "fail"@ {
        Some(InvalidMode::Fail)
    } else if name == "warn"@ {
        Some(InvalidMode::Warn)
    } else if name == "ignore"@ {
        Some(InvalidMode::Ignore)
    } else if name == "abort"@ {
        Some(InvalidMode::Abort)
    } else {
        None
    }
}

/// The text that describes an error.
pub open spec fn error_text(error: ConvertError) -> Seq<char> {
    match error {
        ConvertError::EmptyNumber => "cannot parse float from empty string"@,
        ConvertError::InvalidNumber => "invalid float literal"@,
        ConvertError::InvalidUnit => "invalid suffix in input"@,
        ConvertError::InvalidFormat => "invalid arg for format"@,
    }
}

/// Reads a delimiter: a text of exactly one character.
pub fn delimiter_from(text: &str) -> (delimiter: Option<char>)
    ensures
        delimiter == if text@.len() == 1 {
            Some(text@[0])
        } else {
            None
        },
{
    let chars = chars_of(text);
    if chars.len() == 1 {
        Some(chars[0])
    } else {
        None
    }
}

/// Reads the name of a unit family: `auto`, `si`, `iec` or `iec-i`.
pub fn unit_family_from_name(name: &str) -> (family: Option<UnitFamily>)
    ensures
        family == unit_family_named(name@),
{
    let chars = chars_of(name);
    if chars_equal(&chars, "auto") {
        Some(UnitFamily::Auto)
    } else if chars_equal(&chars, "si") {
        Some(UnitFamily::Si)
    } else if chars_equal(&chars, "iec") {
        Some(UnitFamily::Iec)
    } else if chars_equal(&chars, "iec-i") {
        Some(UnitFamily::IecI)
    } else {
        None
    }
}

/// Reads the name of a rounding policy: `up`, `down`, `from-zero`,
/// `towards-zero` or `nearest`.
pub fn rounding_from_name(name: &str) -> (policy: Option<RoundingPolicy>)
    ensures
        policy == rounding_named(name@),
{
    let chars = chars_of(name);
    if chars_equal(&chars, "up") {
        Some(RoundingPolicy::Ceiling)
    } else if chars_equal(&chars, "down") {
        Some(RoundingPolicy::Floor)
    } else if chars_equal(&chars, "from-zero") {
        Some(RoundingPolicy::AwayFromZero)
    } else if chars_equal(&chars, "towards-zero") {
        Some(RoundingPolicy::TowardZero)
    } else if chars_equal(&chars, "nearest") {
        Some(RoundingPolicy::Nearest)
    } else {
        None
    }
}

/// Reads the name of an invalid mode: `fail`, `warn`, `ignore` or `abort`.
pub fn invalid_mode_from_name(name: &str) -> (mode: Option<InvalidMode>)
    ensures
        mode == invalid_mode_named(name@),
{
    let chars = chars_of(name);
    if chars_equal(&chars, "fail") {
        Some(InvalidMode::Fail)
    } else if chars_equal(&chars, "warn") {
        Some(InvalidMode::Warn)
    } else if chars_equal(&chars, "ignore") {
        Some(InvalidMode::Ignore)
    } else if chars_equal(&chars, "abort") {
        Some(InvalidMode::Abort)
    } else {
        None
    }
}

impl ConvertError {
    /// The text that describes the error.
    pub fn message(&self) -> (text: String)
        ensures
            text@ == error_text(*self),
    {
        match self {
            ConvertError::EmptyNumber => "cannot parse float from empty string".to_string(),
            ConvertError::InvalidNumber => "invalid float literal".to_string(),
            ConvertError::InvalidUnit => "invalid suffix in input".to_string(),
            ConvertError::InvalidFormat => "invalid arg for format".to_string(),
        }
    }
}

} // verus!
