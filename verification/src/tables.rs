//! The alphabets and tables of the notation, for callers that want to show
//! or enumerate them.

use vstd::prelude::*;

verus! {

/// The decimal digits.
pub const DIGITS: &'static str = "0123456789";

/// The characters that the number of a field is made of.
pub const DIGITALS: &'static str = "0123456789.,";

/// The binary suffixes in their two-letter form, by tier; the first stands
/// for no suffix.
pub const IEC_SUFFIXES: [&'static str; 9] = ["", "Ki", "Mi", "Gi", "Ti", "Pi", "Ei", "Zi", "Yi"];

/// The decimal suffixes, by tier; the first stands for no suffix.
pub const SI_SUFFIXES: [&'static str; 9] = ["", "K", "M", "G", "T", "P", "E", "Z", "Y"];

/// The field range that names every field.
pub const DEFAULT_FIELD: &'static str = "1-18446744073709551615";

} // verus!
