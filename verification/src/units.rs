//! Unit suffixes and the scales they stand for.
//!
//! A scale is a base, 10 or 2, and a power: one unit of a suffix is
//! `base^power` base units. Decimal suffixes `K M G T P E Z Y` stand for the
//! powers 3, 6, .., 24 of ten; binary suffixes, written with one letter or
//! with a trailing `i`, stand for the powers 10, 20, .., 80 of two. The
//! position of a letter in that list, counted from one, is its tier.

use vstd::prelude::*;
use vstd::arithmetic::power::{pow, lemma_pow0, lemma_pow_increases};
use crate::text::chars_of;

verus! {

/// The tier of a unit letter, from 1 for `K` to 8 for `Y`; 0 for any other
/// character.
pub open spec fn tier_of_letter(c: char) -> nat {
    if c == 'K' {
        1
    } else if c == 'M' {
        2
    } else if c == 'G' {
        3
    } else if c == 'T' {
        4
    } else if c == 'P' {
        5
    } else if c == 'E' {
        6
    } else if c == 'Z' {
        7
    } else if c == 'Y' {
        8
    } else {
        0
    }
}

/// The unit letter of a tier between 1 and 8.
pub open spec fn letter_of_tier(tier: nat) -> char {
    if tier == 1 {
        'K'
    } else if tier == 2 {
        'M'
    } else if tier == 3 {
        'G'
    } else if tier == 4 {
        'T'
    } else if tier == 5 {
        'P'
    } else if tier == 6 {
        'E'
    } else if tier == 7 {
        'Z'
    } else {
        'Y'
    }
}

/// A decimal suffix: exactly one unit letter.
pub open spec fn is_si_suffix(s: Seq<char>) -> bool {
    s.len() == 1 && tier_of_letter(s[0]) > 0
}

/// A binary suffix in its two-letter form: a unit letter and `i`.
pub open spec fn is_iec_suffix(s: Seq<char>) -> bool {
    s.len() == 2 && tier_of_letter(s[0]) > 0 && s[1] == 'i'
}

/// The power of ten that `s` stands for as a decimal suffix; 0 when it is
/// none.
pub open spec fn si_suffix_power(s: Seq<char>) -> nat {
    if is_si_suffix(s) {
        3 * tier_of_letter(s[0])
    } else {
        0
    }
}

/// The power of two that `s` stands for as a binary suffix, in its one- or
/// two-letter form; 0 when it is none.
pub open spec fn iec_suffix_power(s: Seq<char>) -> nat {
    if is_si_suffix(s) || is_iec_suffix(s) {
        10 * tier_of_letter(s[0])
    } else {
        0
    }
}

/// The highest decimal tier whose power does not exceed `power`.
pub open spec fn si_tier(power: nat) -> nat {
    if power >= 24 {
        8
    } else {
        power / 3
    }
}

/// The highest binary tier whose power does not exceed `power`.
pub open spec fn iec_tier(power: nat) -> nat {
    if power >= 80 {
        8
    } else {
        power / 10
    }
}

/// The suffix written for a tier: nothing for tier 0, else the tier's letter,
/// followed by `i` when `with_i` is set.
pub open spec fn tier_suffix(tier: nat, with_i: bool) -> Seq<char> {
    if tier == 0 {
        Seq::<char>::empty()
    } else if with_i {
        seq![letter_of_tier(tier), 'i']
    } else {
        seq![letter_of_tier(tier)]
    }
}

/// A power as a power of ten: ten binary powers count as three decimal ones
/// when the scale at hand is binary.
pub open spec fn as_si_power(base: u32, power: nat) -> nat {
    if base == 2 {
        (power / 10) * 3
    } else {
        power
    }
}

/// A power as a power of two: three decimal powers count as ten binary ones
/// when the scale at hand is decimal.
pub open spec fn as_iec_power(base: u32, power: nat) -> nat {
    if base == 10 {
        (power * 10) / 3
    } else {
        power
    }
}

/// The power on the other side of a change of base: `(power / 10) * 3` when
/// leaving base 2, `(power * 10) / 3` otherwise.
pub open spec fn corresponding_power(from_base: u32, power: nat) -> nat {
    if from_base == 2 {
        (power / 10) * 3
    } else {
        (power * 10) / 3
    }
}

/// The distance between two tiers of a base: 10 for base 2, else 3.
pub open spec fn tier_step(base: u32) -> nat {
    if base == 2 {
        10
    } else {
        3
    }
}

/// The whole tiers, as a power of `base`, that a value of the given order of
/// magnitude holds. The magnitude is the integer part of the value's
/// logarithm to that base.
pub open spec fn magnitude_shift(base: u32, magnitude: nat) -> nat {
    tier_step(base) * (magnitude / tier_step(base))
}

fn letter_tier(c: char) -> (tier: u32)
    ensures
        tier == tier_of_letter(c),
        tier <= 8,
{
    if c == 'K' {
        1
    } else if c == 'M' {
        2
    } else if c == 'G' {
        3
    } else if c == 'T' {
        4
    } else if c == 'P' {
        5
    } else if c == 'E' {
        6
    } else if c == 'Z' {
        7
    } else if c == 'Y' {
        8
    } else {
        0
    }
}

fn tier_letter(tier: u32) -> (c: char)
    requires
        1 <= tier <= 8,
    ensures
        c == letter_of_tier(tier as nat),
{
    if tier == 1 {
        'K'
    } else if tier == 2 {
        'M'
    } else if tier == 3 {
        'G'
    } else if tier == 4 {
        'T'
    } else if tier == 5 {
        'P'
    } else if tier == 6 {
        'E'
    } else if tier == 7 {
        'Z'
    } else {
        'Y'
    }
}

fn suffix_of_tier(tier: u32, with_i: bool) -> (suffix: String)
    requires
        tier <= 8,
    ensures
        suffix@ == tier_suffix(tier as nat, with_i),
{
    let mut suffix = String::new();
    if tier > 0 {
        suffix.push(tier_letter(tier));
        if with_i {
            suffix.push('i');
        }
    }
    suffix
}

/// Tells whether `s` is one of the decimal suffixes `K M G T P E Z Y`.
pub fn validate_si_suffix(s: &String) -> (valid: bool)
    ensures
        valid == is_si_suffix(s@),
{
    let chars = chars_of(s.as_str());
    chars.len() == 1 && letter_tier(chars[0]) > 0
}

/// Tells whether `s` is one of the two-letter binary suffixes
/// `Ki Mi Gi Ti Pi Ei Zi Yi`.
pub fn validate_ieci_suffix(s: &String) -> (valid: bool)
    ensures
        valid == is_iec_suffix(s@),
{
    let chars = chars_of(s.as_str());
    chars.len() == 2 && letter_tier(chars[0]) > 0 && chars[1] == 'i'
}

/// Reads `unit` as a decimal suffix: the base becomes 10 and the power the
/// one the suffix stands for, 0 when `unit` is no decimal suffix.
pub fn get_si_power(base: &mut u32, power: &mut u32, unit: &String)
    ensures
        *final(base) == 10,
        *final(power) == si_suffix_power(unit@),
{
    let chars = chars_of(unit.as_str());
    *base = 10;
    *power = if chars.len() == 1 {
        3 * letter_tier(chars[0])
    } else {
        0
    };
}

/// Reads `unit` as a binary suffix, with or without its trailing `i`: the
/// base becomes 2 and the power the one the suffix stands for, 0 when `unit`
/// is no binary suffix.
pub fn get_iec_power(base: &mut u32, power: &mut u32, unit: &String)
    ensures
        *final(base) == 2,
        *final(power) == iec_suffix_power(unit@),
{
    let chars = chars_of(unit.as_str());
    *base = 2;
    *power = if chars.len() == 1 || (chars.len() == 2 && chars[1] == 'i') {
        10 * letter_tier(chars[0])
    } else {
        0
    };
}

/// Detects the family of `s`: a decimal suffix is read as such, a two-letter
/// binary suffix as such, and anything else leaves the number unscaled, at
/// base 10 and power 0.
pub fn get_auto_power(base: &mut u32, power: &mut u32, s: &String)
    ensures
        is_si_suffix(s@) ==> *final(base) == 10 && *final(power) == si_suffix_power(s@),
        !is_si_suffix(s@) && is_iec_suffix(s@) ==> *final(base) == 2 && *final(power)
            == iec_suffix_power(s@),
        !is_si_suffix(s@) && !is_iec_suffix(s@) ==> *final(base) == 10 && *final(power) == 0,
{
    if validate_si_suffix(s) {
        get_si_power(base, power, s);
    } else if validate_ieci_suffix(s) {
        get_iec_power(base, power, s);
    } else {
        *base = 10;
        *power = 0;
    }
}

/// Picks the decimal suffix for a scale. A power of two is first turned into
/// the power of ten of the same tier, and `power` is left at that value. The
/// suffix is that of the highest tier that `power` reaches, and empty below
/// the first tier.
pub fn to_si_power(base: &u32, power: &mut u32) -> (suffix: String)
    ensures
        *final(power) == as_si_power(*base, *old(power) as nat),
        suffix@ == tier_suffix(si_tier(*final(power) as nat), false),
{
    if *base == 2 {
        *power = (*power / 10) * 3;
    }
    let tier: u32 = if *power >= 24 {
        8
    } else {
        *power / 3
    };
    suffix_of_tier(tier, false)
}

/// Picks the binary suffix for a scale, with a trailing `i` when `iec_i` is
/// set. A power of ten is first turned into the power of two of the same
/// tier, and `power` is left at that value. The suffix is that of the highest
/// tier that `power` reaches, and empty below the first tier.
pub fn to_iec_power(iec_i: bool, base: &u32, power: &mut u32) -> (suffix: String)
    requires
        *base == 10 ==> *old(power) * 10 <= u32::MAX,
    ensures
        *final(power) == as_iec_power(*base, *old(power) as nat),
        suffix@ == tier_suffix(iec_tier(*final(power) as nat), iec_i),
{
    if *base == 10 {
        *power = (*power * 10) / 3;
    }
    let tier: u32 = if *power >= 80 {
        8
    } else {
        *power / 10
    };
    suffix_of_tier(tier, iec_i)
}

/// The whole tiers, as a power of `base`, that a value of the given order of
/// magnitude holds.
pub fn magnitude_tiers(base: u32, magnitude: u32) -> (shift: u32)
    ensures
        shift == magnitude_shift(base, magnitude as nat),
        shift <= magnitude,
{
    if base == 2 {
        10 * (magnitude / 10)
    } else {
        3 * (magnitude / 3)
    }
}

/// Raises `power` by the whole tiers that a value of the given order of
/// magnitude holds, and returns that rise: the exponent of `base` by which
/// the caller divides the value, so that scale and value together still name
/// the same quantity.
pub fn refine_power(base: u32, power: &mut u32, magnitude: u32) -> (shift: u32)
    requires
        *old(power) + magnitude_shift(base, magnitude as nat) <= u32::MAX,
    ensures
        shift == magnitude_shift(base, magnitude as nat),
        *final(power) == *old(power) + shift,
        *old(power) as nat % tier_step(base) == 0 ==> *final(power) as nat % tier_step(base) == 0,
{
    let shift = magnitude_tiers(base, magnitude);
    proof {
        let before = *old(power) as int;
        let tiers = magnitude as int / tier_step(base) as int;
        if base == 2 {
            assert((before + 10 * tiers) % 10 == before % 10);
        } else {
            assert((before + 3 * tiers) % 3 == before % 3);
        }
    }
    *power = *power + shift;
    shift
}

/// The two integers whose quotient carries a value from one base to the
/// other.
#[derive(Clone, Copy, Debug, PartialEq, Eq, Structural)]
pub struct ScaleFactor {
    pub numerator: u128,
    pub denominator: u128,
}

/// `base^exponent`, or `None` when it does not fit in 128 bits.
pub fn checked_power(base: u32, exponent: u64) -> (result: Option<u128>)
    ensures
        result matches Some(value) ==> value == pow(base as int, exponent as nat),
        result is None ==> pow(base as int, exponent as nat) > u128::MAX,
{
    if exponent == 0 {
        proof {
            lemma_pow0(base as int);
        }
        return Some(1);
    }
    if base <= 1 {
        proof {
            lemma_small_base_pow(base as int, exponent as nat);
        }
        return Some(base as u128);
    }
    let mut value: u128 = 1;
    let mut done: u64 = 0;
    proof {
        lemma_pow0(base as int);
    }
    while done < exponent
        invariant
            done <= exponent,
            base >= 2,
            value == pow(base as int, done as nat),
        decreases exponent - done,
    {
        proof {
            lemma_pow_step(base as int, done as nat);
        }
        match value.checked_mul(base as u128) {
            Some(next) => {
                value = next;
                done += 1;
            },
            None => {
                proof {
                    lemma_pow_increases(base as nat, (done + 1) as nat, exponent as nat);
                }
                return None;
            },
        }
    }
    Some(value)
}

proof fn lemma_pow_step(base: int, exponent: nat)
    ensures
        pow(base, exponent + 1) == pow(base, exponent) * base,
{
    reveal(pow);
    assert(base * pow(base, exponent) == pow(base, exponent) * base) by (nonlinear_arith);
}

proof fn lemma_small_base_pow(base: int, exponent: nat)
    requires
        0 <= base <= 1,
        exponent > 0,
    ensures
        pow(base, exponent) == base,
    decreases exponent,
{
    let below = (exponent - 1) as nat;
    lemma_pow_step(base, below);
    if below > 0 {
        lemma_small_base_pow(base, below);
        assert(base * base == base) by (nonlinear_arith)
            requires
                0 <= base <= 1,
        ;
    } else {
        lemma_pow0(base);
    }
}

/// The factor that carries a value at `from_base^power` over to `to_base`:
/// `from_base^power` over `to_base` raised to the corresponding power. Ten
/// binary powers correspond to three decimal ones. `None` when one of the two
/// integers does not fit in 128 bits.
pub fn change_system(from_base: &u32, to_base: &u32, power: &u32) -> (factor: Option<ScaleFactor>)
    ensures
        factor matches Some(f) ==> f.numerator == pow(*from_base as int, *power as nat)
            && f.denominator == pow(
            *to_base as int,
            corresponding_power(*from_base, *power as nat),
        ),
        factor is None ==> pow(*from_base as int, *power as nat) > u128::MAX || pow(
            *to_base as int,
            corresponding_power(*from_base, *power as nat),
        ) > u128::MAX,
{
    let other: u64 = if *from_base == 2 {
        ((*power / 10) as u64) * 3
    } else {
        ((*power as u64) * 10) / 3
    };
    match checked_power(*from_base, *power as u64) {
        Some(numerator) => match checked_power(*to_base, other) {
            Some(denominator) => Some(ScaleFactor { numerator, denominator }),
            None => None,
        },
        None => None,
    }
}

/// The power that a suffix stands for is made of whole tiers, eight at
/// most.
pub proof fn lemma_suffix_powers(s: Seq<char>)
    ensures
        si_suffix_power(s) % 3 == 0,
        si_suffix_power(s) <= 24,
        iec_suffix_power(s) % 10 == 0,
        iec_suffix_power(s) <= 80,
{
    if s.len() > 0 {
        let tier = tier_of_letter(s[0]);
        assert((3 * tier) % 3 == 0);
        assert((10 * tier) % 10 == 0);
    }
}

/// On the tiers the two bases correspond exactly: the power of two of a
/// tier goes to the power of ten of the same tier, and back.
pub proof fn lemma_corresponding_power_on_tiers(tier: nat)
    ensures
        corresponding_power(2, 10 * tier) == 3 * tier,
        corresponding_power(10, 3 * tier) == 10 * tier,
        as_si_power(2, 10 * tier) == 3 * tier,
        as_iec_power(10, 3 * tier) == 10 * tier,
{
}

/// A suffix written for a tier and read back stands for that tier: under the
/// decimal reading for a one-letter suffix, under the binary reading for
/// both forms.
pub proof fn lemma_tier_suffix_round_trip(tier: nat, with_i: bool)
    requires
        tier <= 8,
    ensures
        iec_suffix_power(tier_suffix(tier, with_i)) == 10 * tier,
        !with_i ==> si_suffix_power(tier_suffix(tier, with_i)) == 3 * tier,
{
}

/// The decimal suffix picked for a power of ten names the largest tier that
/// the power reaches, and reading that suffix back gives the tier's power.
/// For a power that is itself a tier, 3, 6, .., 24, reading back gives the
/// power again.
pub proof fn lemma_si_suffix_round_trip(power: nat)
    ensures
        as_si_power(10, power) == power,
        si_suffix_power(tier_suffix(si_tier(power), false)) == 3 * si_tier(power),
        3 * si_tier(power) <= power,
        power < 3 * si_tier(power) + 3 || si_tier(power) == 8,
        power % 3 == 0 && 3 <= power <= 24 ==> si_suffix_power(
            tier_suffix(si_tier(power), false),
        ) == power,
{
    lemma_tier_suffix_round_trip(si_tier(power), false);
}

/// The binary suffix picked for a power of two, in either form, names the
/// largest tier that the power reaches, and reading that suffix back gives
/// the tier's power. For a power that is itself a tier, 10, 20, .., 80,
/// reading back gives the power again.
pub proof fn lemma_iec_suffix_round_trip(power: nat, with_i: bool)
    ensures
        as_iec_power(2, power) == power,
        iec_suffix_power(tier_suffix(iec_tier(power), with_i)) == 10 * iec_tier(power),
        10 * iec_tier(power) <= power,
        power < 10 * iec_tier(power) + 10 || iec_tier(power) == 8,
        power % 10 == 0 && 10 <= power <= 80 ==> iec_suffix_power(
            tier_suffix(iec_tier(power), with_i),
        ) == power,
{
    lemma_tier_suffix_round_trip(iec_tier(power), with_i);
}

} // verus!
