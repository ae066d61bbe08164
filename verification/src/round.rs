//! The rules of rounding.
//!
//! Rounding a number to an integer moves its integer part by one step or
//! leaves it. Which of the two depends on the policy, on the sign of the
//! number, on whether it has a fraction, and on whether that fraction is one
//! half or more. [`rounding_step`] is that rule; the caller works out the
//! integer part and the three facts in its own arithmetic and adds the step.
//!
//! What the rule comes to is stated for quotients of integers: under
//! `Ceiling` the result is the least integer not below the quotient, and so
//! on for the other policies.

use vstd::prelude::*;
use vstd::arithmetic::div_mod::{lemma_fundamental_div_mod, lemma_mod_bound};
use crate::options::RoundingPolicy;

verus! {

/// The step that rounding adds to the integer part of a number.
///
/// `Ceiling` steps up from a positive number with a fraction, `Floor` down
/// from a negative one. `AwayFromZero` always steps, in the direction of the
/// sign. `TowardZero` never steps. `Nearest` steps in the direction of the
/// sign when the fraction is one half or more.
pub open spec fn rounding_step_of(
    policy: RoundingPolicy,
    negative: bool,
    fractional: bool,
    half_or_more: bool,
) -> int {
    match policy {
        RoundingPolicy::Ceiling => if fractional && !negative {
            1
        } else {
            0
        },
        RoundingPolicy::Floor => if fractional && negative {
            -1
        } else {
            0
        },
        RoundingPolicy::AwayFromZero => if negative {
            -1
        } else {
            1
        },
        RoundingPolicy::TowardZero => 0,
        RoundingPolicy::Nearest => if !half_or_more {
            0
        } else if negative {
            -1
        } else {
            1
        },
    }
}

/// The integer part of `n / d`, for a positive `d`: the quotient with its
/// fraction cut off.
pub open spec fn integer_part(n: int, d: int) -> int {
    if n >= 0 {
        n / d
    } else {
        -((-n) / d)
    }
}

/// The quotient `n / d`, for a positive `d`, rounded by a policy.
pub open spec fn rounded_quotient(policy: RoundingPolicy, n: int, d: int) -> int {
    let part = integer_part(n, d);
    let rest = n - part * d;
    let twice = if rest < 0 {
        -2 * rest
    } else {
        2 * rest
    };
    part + rounding_step_of(policy, n < 0, rest != 0, twice >= d)
}

/// The step that rounding adds to the integer part of a number: -1, 0 or 1.
/// `negative` tells the sign of the number, `fractional` whether it has a
/// fraction, `half_or_more` whether the fraction is one half or more.
pub fn rounding_step(
    policy: RoundingPolicy,
    negative: bool,
    fractional: bool,
    half_or_more: bool,
) -> (step: i8)
    ensures
        step == rounding_step_of(policy, negative, fractional, half_or_more),
{
    let toward_sign: i8 = if negative {
        -1
    } else {
        1
    };
    match policy {
        RoundingPolicy::Ceiling => if fractional && !negative {
            1
        } else {
            0
        },
        RoundingPolicy::Floor => if fractional && negative {
            -1
        } else {
            0
        },
        RoundingPolicy::AwayFromZero => toward_sign,
        RoundingPolicy::TowardZero => 0,
        RoundingPolicy::Nearest => if half_or_more {
            toward_sign
        } else {
            0
        },
    }
}

/// A quotient is its integer part and a rest that is smaller than the
/// divisor and has the sign of the dividend.
pub proof fn lemma_integer_part(n: int, d: int)
    requires
        d > 0,
    ensures
        n >= 0 ==> 0 <= n - integer_part(n, d) * d < d,
        n < 0 ==> -d < n - integer_part(n, d) * d <= 0,
{
    if n >= 0 {
        lemma_fundamental_div_mod(n, d);
        lemma_mod_bound(n, d);
        assert((n / d) * d == d * (n / d)) by (nonlinear_arith);
    } else {
        lemma_fundamental_div_mod(-n, d);
        lemma_mod_bound(-n, d);
        assert((-((-n) / d)) * d == -(d * ((-n) / d))) by (nonlinear_arith);
    }
}

/// What each policy comes to on a quotient `n / d` with a positive `d`.
///
/// `Ceiling` gives the least integer that is not below the quotient, `Floor`
/// the greatest that is not above it. `TowardZero` gives the floor of a
/// quotient that is not negative and the ceiling of a negative one.
/// `AwayFromZero` gives the least integer above a quotient that is not
/// negative, and the greatest below a negative one. `Nearest` gives an
/// integer no further than one half from the quotient, and of the two that
/// are one half away the one further from zero.
pub proof fn lemma_rounded_quotient(policy: RoundingPolicy, n: int, d: int)
    requires
        d > 0,
    ensures
        ({
            let r = rounded_quotient(policy, n, d);
            match policy {
                RoundingPolicy::Ceiling => (r - 1) * d < n <= r * d,
                RoundingPolicy::Floor => r * d <= n < (r + 1) * d,
                RoundingPolicy::TowardZero => if n >= 0 {
                    r * d <= n < (r + 1) * d
                } else {
                    (r - 1) * d < n <= r * d
                },
                RoundingPolicy::AwayFromZero => if n >= 0 {
                    (r - 1) * d <= n < r * d
                } else {
                    r * d < n <= (r + 1) * d
                },
                RoundingPolicy::Nearest => if n >= 0 {
                    2 * r * d - d <= 2 * n < 2 * r * d + d
                } else {
                    2 * r * d - d < 2 * n <= 2 * r * d + d
                },
            }
        }),
{
    let part = integer_part(n, d);
    lemma_integer_part(n, d);
    assert((part + 1) * d == part * d + d) by (nonlinear_arith);
    assert((part - 1) * d == part * d - d) by (nonlinear_arith);
    assert(2 * part * d == 2 * (part * d)) by (nonlinear_arith);
    assert(2 * (part + 1) * d == 2 * (part * d) + 2 * d) by (nonlinear_arith);
    assert(2 * (part - 1) * d == 2 * (part * d) - 2 * d) by (nonlinear_arith);
}

} // verus!
