//! The conversion of one field: reading the scale of the input number off
//! its suffix, planning the arithmetic, and writing the converted number out
//! with the unit of the target family.
//!
//! The arithmetic on the number itself is done by the caller, step by step
//! as the plan of [`plan_conversion`] has it.

use vstd::prelude::*;
use vstd::arithmetic::power::pow;
use crate::export::{formatted, formatting, grouped, grouping, padded, padding};
use crate::extract::{
    normalize_decimal_point,
    numeral_error,
    numeral_of,
    strip_number,
    suffix_of,
    with_decimal_point,
};
use crate::options::{ConvertError, Options, RoundingPolicy, UnitFamily};
use crate::units::{
    as_iec_power,
    as_si_power,
    change_system,
    corresponding_power,
    get_auto_power,
    get_iec_power,
    get_si_power,
    iec_suffix_power,
    iec_tier,
    is_iec_suffix,
    lemma_suffix_powers,
    magnitude_shift,
    magnitude_tiers,
    refine_power,
    is_si_suffix,
    si_suffix_power,
    si_tier,
    tier_step,
    tier_suffix,
    to_iec_power,
    to_si_power,
    validate_ieci_suffix,
    validate_si_suffix,
    ScaleFactor,
};

verus! {

/// The scale of an input number.
#[derive(Clone, Copy, Debug, PartialEq, Eq, Structural)]
pub struct UnitScale {
    /// 10 or 2.
    pub base: u32,
    /// The exponent: one unit of the suffix is `base^power`.
    pub power: u32,
    /// Whether the number's own order of magnitude is to be moved into the
    /// power as well: it is where the suffix was read under a family.
    pub by_magnitude: bool,
}

impl UnitScale {
    /// The base is 10 or 2, and the power is made of whole tiers: a multiple
    /// of 3 at base 10, of 10 at base 2.
    pub open spec fn well_formed(&self) -> bool {
        (self.base == 10 || self.base == 2) && self.power as nat % tier_step(self.base) == 0
    }
}

/// A field as it was read: its number, still as text, the suffix that
/// followed it, and the scale that the suffix stands for.
#[derive(Clone, Debug, PartialEq, Eq)]
pub struct ParsedNumber {
    pub number: String,
    pub suffix: String,
    pub scale: UnitScale,
}

/// The scale that a suffix stands for under a family.
///
/// Under the decimal and the binary families a suffix that the family does
/// not know counts as none. Under `Auto` a decimal suffix is read as
/// decimal and a two-letter binary suffix as binary. A number without suffix
/// is read as decimal, at power 0, when a target family `to` is asked for,
/// and stays unscaled when none is. With any other suffix the number stays
/// unscaled. Under `Unscaled` only the empty suffix is accepted.
pub open spec fn resolved(family: UnitFamily, to: Option<UnitFamily>, suffix: Seq<char>) -> Result<
    UnitScale,
    ConvertError,
> {
    match family {
        UnitFamily::Si => Ok(
            UnitScale { base: 10, power: si_suffix_power(suffix) as u32, by_magnitude: true },
        ),
        UnitFamily::Iec | UnitFamily::IecI => Ok(
            UnitScale { base: 2, power: iec_suffix_power(suffix) as u32, by_magnitude: true },
        ),
        UnitFamily::Auto => if is_si_suffix(suffix) {
            Ok(UnitScale { base: 10, power: si_suffix_power(suffix) as u32, by_magnitude: true })
        } else if is_iec_suffix(suffix) {
            Ok(UnitScale { base: 2, power: iec_suffix_power(suffix) as u32, by_magnitude: true })
        } else {
            Ok(UnitScale { base: 10, power: 0, by_magnitude: suffix.len() == 0 && to is Some })
        },
        UnitFamily::Unscaled => if suffix.len() == 0 {
            Ok(UnitScale { base: 10, power: 0, by_magnitude: false })
        } else {
            Err(ConvertError::InvalidUnit)
        },
    }
}

/// The base in which the output is counted: 2 for the binary families, else
/// 10.
pub open spec fn target_base_of(to: Option<UnitFamily>) -> u32 {
    match to {
        Some(UnitFamily::Iec) | Some(UnitFamily::IecI) => 2,
        _ => 10,
    }
}

/// Whether writing the unit turns a power of ten into a power of two, which
/// multiplies it by ten on the way.
pub open spec fn rescales_power(to: Option<UnitFamily>, base: u32) -> bool {
    base == 10 && (to == Some(UnitFamily::Iec) || to == Some(UnitFamily::IecI))
}

/// The unit written behind a number: the suffix of the highest tier of the
/// target family that the scale reaches, and the input's own suffix where no
/// target family is asked for.
pub open spec fn unit_for(to: Option<UnitFamily>, base: u32, power: nat, suffix: Seq<char>) -> Seq<
    char,
> {
    match to {
        None => suffix,
        Some(UnitFamily::Si) => tier_suffix(si_tier(as_si_power(base, power)), false),
        Some(UnitFamily::Iec) => tier_suffix(iec_tier(as_iec_power(base, power)), false),
        Some(UnitFamily::IecI) => tier_suffix(iec_tier(as_iec_power(base, power)), true),
        Some(_) => Seq::<char>::empty(),
    }
}

/// A converted number as it is written: grouped if asked for, followed by
/// its unit and the caller's suffix, and padded to the width of the format,
/// or of the padding where there is no format.
pub open spec fn exported(
    value: Seq<char>,
    base: u32,
    power: nat,
    suffix: Seq<char>,
    options: Options,
) -> Seq<char> {
    let unit = unit_for(options.to, base, power, suffix);
    let number = if options.formatting.grouping {
        grouped(value)
    } else {
        value
    };
    match options.formatting.format {
        Some(format) => formatted(number, unit, options.formatting.suffix@, format@),
        None => padded(number, unit, options.formatting.suffix@, options.formatting.padding as int),
    }
}

/// What reading a field comes to: the error of its number if it has one,
/// else that of its suffix, else the scale.
pub open spec fn imported(field: Seq<char>, options: Options) -> Result<UnitScale, ConvertError> {
    let text = with_decimal_point(field, options.decimal_point);
    match numeral_error(numeral_of(text)) {
        Some(error) => Err(error),
        None => resolved(options.from, options.to, suffix_of(text)),
    }
}

/// Reads a field: turns the decimal point of the locale into `.`, splits
/// the number from the suffix, and reads the scale off the suffix. A field
/// whose number is no number is refused before its suffix is looked at.
pub fn import_number(field: &str, options: &Options) -> (result: Result<ParsedNumber, ConvertError>)
    ensures
        match result {
            Ok(parsed) => {
                let text = with_decimal_point(field@, options.decimal_point);
                &&& imported(field@, *options) == Ok::<UnitScale, ConvertError>(parsed.scale)
                &&& parsed.scale.well_formed()
                &&& parsed.number@ == numeral_of(text)
                &&& parsed.suffix@ == suffix_of(text)
            },
            Err(error) => imported(field@, *options) == Err::<UnitScale, ConvertError>(error),
        },
{
    let mut number = normalize_decimal_point(field, options.decimal_point);
    let mut suffix = String::new();
    match strip_number(&mut number, &mut suffix) {
        Err(error) => Err(error),
        Ok(()) => match resolve_unit(options.from, options.to, &suffix) {
            Err(error) => Err(error),
            Ok(scale) => Ok(ParsedNumber { number, suffix, scale }),
        },
    }
}

/// A number without suffix, read under `Auto` with a target family asked
/// for, is written with the unit of the tier that its order of magnitude
/// reaches: that of 3 for a magnitude of 3 to 5, of 6 for one of 6 to 8, and
/// so on up to the eighth tier. The unit has its trailing `i` under `IecI`.
pub proof fn lemma_bare_number_gets_its_unit(to: UnitFamily, magnitude: nat)
    requires
        to == UnitFamily::Si || to == UnitFamily::Iec || to == UnitFamily::IecI,
    ensures
        resolved(UnitFamily::Auto, Some(to), Seq::<char>::empty()) == Ok::<
            UnitScale,
            ConvertError,
        >(UnitScale { base: 10, power: 0, by_magnitude: true }),
        planned_power(UnitScale { base: 10, power: 0, by_magnitude: true }, magnitude) == 3 * (
        magnitude / 3),
        unit_for(Some(to), 10, 3 * (magnitude / 3), Seq::<char>::empty()) == tier_suffix(
            if magnitude / 3 >= 8 {
                8
            } else {
                magnitude / 3
            },
            to == UnitFamily::IecI,
        ),
{
    let tiers = magnitude / 3;
    assert(as_iec_power(10, 3 * tiers) == 10 * tiers);
    assert(si_tier(3 * tiers) == if tiers >= 8 {
        8
    } else {
        tiers
    });
    assert(iec_tier(10 * tiers) == if tiers >= 8 {
        8
    } else {
        tiers
    });
}

/// A number without suffix, read under `Auto` or `Unscaled` with no target
/// family asked for, stays as it is: it is read at base 10 and power 0,
/// nothing of its magnitude goes over into the power, and no factor is
/// called for.
pub proof fn lemma_bare_number_stays(family: UnitFamily, magnitude: nat)
    requires
        family == UnitFamily::Auto || family == UnitFamily::Unscaled,
    ensures
        resolved(family, None, Seq::<char>::empty()) == Ok::<UnitScale, ConvertError>(
            UnitScale { base: 10, power: 0, by_magnitude: false },
        ),
        planned_power(UnitScale { base: 10, power: 0, by_magnitude: false }, magnitude) == 0,
        target_base_of(None) == 10,
{
}

/// Reads the scale of an input number off its suffix, under the family
/// `family` and with the target family `to`.
pub fn resolve_unit(family: UnitFamily, to: Option<UnitFamily>, suffix: &String) -> (result: Result<
    UnitScale,
    ConvertError,
>)
    ensures
        result == resolved(family, to, suffix@),
        result matches Ok(scale) ==> scale.well_formed() && scale.power <= 8 * tier_step(
            scale.base,
        ),
{
    let mut base: u32 = 10;
    let mut power: u32 = 0;
    proof {
        lemma_suffix_powers(suffix@);
    }
    match family {
        UnitFamily::Si => {
            get_si_power(&mut base, &mut power, suffix);
            Ok(UnitScale { base, power, by_magnitude: true })
        },
        UnitFamily::Iec | UnitFamily::IecI => {
            get_iec_power(&mut base, &mut power, suffix);
            Ok(UnitScale { base, power, by_magnitude: true })
        },
        UnitFamily::Auto => {
            let known = validate_si_suffix(suffix) || validate_ieci_suffix(suffix);
            let bare = suffix.as_str().is_empty() && to.is_some();
            get_auto_power(&mut base, &mut power, suffix);
            Ok(UnitScale { base, power, by_magnitude: known || bare })
        },
        UnitFamily::Unscaled => {
            if suffix.as_str().is_empty() {
                Ok(UnitScale { base, power, by_magnitude: false })
            } else {
                Err(ConvertError::InvalidUnit)
            }
        },
    }
}

/// The steps of the arithmetic on a number, in their order: the number is
/// divided by its base raised to `shift`, then by the unit size, then
/// multiplied by `factor` where there is one, then rounded by `round` where
/// there is one. It is written at the scale of `power`.
#[derive(Clone, Copy, Debug, PartialEq, Eq, Structural)]
pub struct Plan {
    /// The exponent of the base by which the number is divided: the whole
    /// tiers of its order of magnitude, which go over into the power.
    pub shift: u32,
    /// The power at which the number is written.
    pub power: u32,
    /// The factor that carries the number over to the base of the target
    /// family, where that is another base.
    pub factor: Option<ScaleFactor>,
    /// The rounding that ends the arithmetic, if any.
    pub round: Option<RoundingPolicy>,
    /// Whether the number is written with a fraction even where it has
    /// none: it is where a target family is asked for.
    pub fraction: bool,
}

/// The tiers of the order of magnitude that go over into the power: those
/// that the magnitude holds where the scale asks for it, else none.
pub open spec fn planned_shift(scale: UnitScale, magnitude: nat) -> nat {
    if scale.by_magnitude {
        magnitude_shift(scale.base, magnitude)
    } else {
        0
    }
}

/// The power at which the number is written: that of the scale, raised by
/// the tiers of the order of magnitude.
pub open spec fn planned_power(scale: UnitScale, magnitude: nat) -> nat {
    scale.power as nat + planned_shift(scale, magnitude)
}

/// Whether a plan can be made within the limits of the machine: the power
/// fits in 32 bits, also as a power of two where the unit is written as one,
/// and the two integers of the factor fit in 128 bits where a factor is
/// called for.
pub open spec fn plan_fits(scale: UnitScale, magnitude: nat, options: Options) -> bool {
    let power = planned_power(scale, magnitude);
    let target = target_base_of(options.to);
    &&& power <= u32::MAX
    &&& rescales_power(options.to, scale.base) ==> power * 10 <= u32::MAX
    &&& scale.base != target ==> pow(scale.base as int, power) <= u128::MAX && pow(
        target as int,
        corresponding_power(scale.base, power),
    ) <= u128::MAX
}

/// Plans the arithmetic on a number that was read at `scale` and whose order
/// of magnitude is `magnitude`, the integer part of its logarithm to the
/// base of the scale.
///
/// The tiers of the magnitude go over into the power where the scale asks
/// for it. A factor is planned exactly where the base of the scale is not
/// that of the target family. The rounding is that of the options. A number
/// whose plan does not fit the machine is refused.
pub fn plan_conversion(scale: UnitScale, magnitude: u32, options: &Options) -> (plan: Result<
    Plan,
    ConvertError,
>)
    ensures
        plan is Ok <==> plan_fits(scale, magnitude as nat, *options),
        match plan {
            Ok(p) => {
                &&& p.shift == planned_shift(scale, magnitude as nat)
                &&& p.power == planned_power(scale, magnitude as nat)
                &&& p.factor is Some <==> scale.base != target_base_of(options.to)
                &&& p.factor matches Some(f) ==> f.numerator == pow(
                    scale.base as int,
                    p.power as nat,
                ) && f.denominator == pow(
                    target_base_of(options.to) as int,
                    corresponding_power(scale.base, p.power as nat),
                )
                &&& p.round == options.round
                &&& p.fraction == (options.to is Some)
                &&& scale.well_formed() ==> p.power as nat % tier_step(scale.base) == 0
            },
            Err(error) => error == ConvertError::InvalidNumber,
        },
{
    let mut power = scale.power;
    let mut shift: u32 = 0;
    if scale.by_magnitude {
        if magnitude_tiers(scale.base, magnitude) > u32::MAX - power {
            return Err(ConvertError::InvalidNumber);
        }
        shift = refine_power(scale.base, &mut power, magnitude);
    }
    let to_binary = match options.to {
        Some(UnitFamily::Iec) | Some(UnitFamily::IecI) => true,
        _ => false,
    };
    if scale.base == 10 && to_binary && power > u32::MAX / 10 {
        return Err(ConvertError::InvalidNumber);
    }
    let target = target_base(options.to);
    let factor = if scale.base != target {
        match change_system(&scale.base, &target, &power) {
            Some(factor) => Some(factor),
            None => {
                return Err(ConvertError::InvalidNumber);
            },
        }
    } else {
        None
    };
    Ok(Plan { shift, power, factor, round: options.round, fraction: options.to.is_some() })
}

/// The base in which the output is counted.
pub fn target_base(to: Option<UnitFamily>) -> (base: u32)
    ensures
        base == target_base_of(to),
{
    match to {
        Some(UnitFamily::Iec) | Some(UnitFamily::IecI) => 2,
        _ => 10,
    }
}

/// The unit written behind a number at the scale `base^power`.
pub fn unit_suffix(to: Option<UnitFamily>, base: u32, power: u32, suffix: &String) -> (unit: String)
    requires
        rescales_power(to, base) ==> power * 10 <= u32::MAX,
    ensures
        unit@ == unit_for(to, base, power as nat, suffix@),
{
    let mut power = power;
    match to {
        None => suffix.clone(),
        Some(UnitFamily::Si) => to_si_power(&base, &mut power),
        Some(UnitFamily::Iec) => to_iec_power(false, &base, &mut power),
        Some(UnitFamily::IecI) => to_iec_power(true, &base, &mut power),
        Some(_) => String::new(),
    }
}

/// Writes a converted number out. `value` is the number as text, `base` and
/// `power` the scale it was read at, `suffix` the suffix it came with.
pub fn export_number(
    value: &String,
    base: u32,
    power: u32,
    suffix: &String,
    options: &Options,
) -> (out: String)
    requires
        options.well_formed(),
        rescales_power(options.to, base) ==> power * 10 <= u32::MAX,
    ensures
        out@ == exported(value@, base, power as nat, suffix@, *options),
{
    let unit = unit_suffix(options.to, base, power, suffix);
    let number = if options.formatting.grouping {
        grouping(value)
    } else {
        value.clone()
    };
    match &options.formatting.format {
        Some(format) => formatting(&number, &unit, &options.formatting.suffix, format.clone()),
        None => padding(&number, &unit, &options.formatting.suffix, options.formatting.padding),
    }
}

} // verus!
