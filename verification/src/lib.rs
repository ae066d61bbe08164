//! Conversion of numbers in text fields between plain and unit-scaled
//! notations: `1000` and `1.0K`, `1024` and `1.0Ki`.
//!
//! A line is cut into fields ([`fields`]); the fields in range are converted
//! and the line is written out again ([`router`]). A field is converted in
//! three steps. It is split into number and suffix ([`extract`]) and the
//! suffix is read as a scale ([`units`], [`convert`]). The number is then
//! brought to the unit asked for; that arithmetic is left to the caller, who
//! takes from here its plan ([`convert`]), the powers to scale by
//! ([`units`]) and the rule to round by ([`round`]). At last the number is
//! written with its unit, grouped and padded ([`export`], [`convert`]).
//!
//! The arguments of a run are checked by [`validate`] and kept in the types
//! of [`options`]. The alphabets and suffix tables of the notation are
//! listed in [`tables`].
//!
//! Every executable function states what it returns over the characters of
//! its arguments, and is proved to meet that statement.

pub mod convert;
pub mod export;
pub mod extract;
pub mod fields;
pub mod modulo;
pub mod numbers;
pub mod options;
pub mod round;

pub mod router;
pub mod tables;
pub mod text;
pub mod units;
pub mod validate;

pub use crate::convert::{
    export_number,
    import_number,
    plan_conversion,
    resolve_unit,
    target_base,
    unit_suffix,
    ParsedNumber,
    Plan,
    UnitScale,
};
pub use crate::export::{check_format, formatting, grouping, padding};
pub use crate::extract::{normalize_decimal_point, strip_number};
pub use crate::fields::{field_range, get_fields, tokenize};
pub use crate::modulo::ModuloSignedExt;
pub use crate::options::{
    delimiter_from,
    invalid_mode_from_name,
    rounding_from_name,
    unit_family_from_name,
    ConvertError,
    FieldRange,
    FormattingSpec,
    InvalidMode,
    Options,
    RoundingPolicy,
    UnitFamily,
};
pub use crate::round::rounding_step;
pub use crate::router::{numfmt, select_fields, LineOutput};
pub use crate::tables::{DEFAULT_FIELD, DIGITALS, DIGITS, IEC_SUFFIXES, SI_SUFFIXES};
pub use crate::units::{
    change_system,
    checked_power,
    get_auto_power,
    get_iec_power,
    get_si_power,
    magnitude_tiers,
    refine_power,
    to_iec_power,
    to_si_power,
    validate_ieci_suffix,
    validate_si_suffix,
    ScaleFactor,
};
pub use crate::validate::{
    is_int,
    strick_positive_int,
    validate_field,
    validate_format,
    validate_invalid,
    validate_round,
    validate_unit_from,
    validate_unit_to,
};
