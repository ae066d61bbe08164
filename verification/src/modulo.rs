//! The remainder that takes the sign of the divisor.

use vstd::prelude::*;
use vstd::arithmetic::div_mod::{
    lemma_fundamental_div_mod,
    lemma_fundamental_div_mod_converse,
    lemma_mod_bound,
};

verus! {

/// The remainder of `a` by `n` that lies between zero and `n`, zero included
/// and `n` not: for a positive `n` the least natural number that differs
/// from `a` by a multiple of `n`, for a negative `n` its mirror image.
pub open spec fn floor_mod(a: int, n: int) -> int {
    if n > 0 {
        a % n
    } else {
        -((-a) % (-n))
    }
}

/// The remainder of `-a` by a positive `n` mirrors that of `a`.
proof fn lemma_mod_of_negation(a: int, n: int)
    requires
        n > 0,
    ensures
        (-a) % n == if a % n == 0 {
            0
        } else {
            n - a % n
        },
{
    let q = a / n;
    let m = a % n;
    lemma_fundamental_div_mod(a, n);
    lemma_mod_bound(a, n);
    if m == 0 {
        assert(-a == (-q) * n + 0) by (nonlinear_arith)
            requires
                a == n * q + m,
                m == 0,
        ;
        lemma_fundamental_div_mod_converse(-a, n, -q, 0);
    } else {
        assert(-a == (-q - 1) * n + (n - m)) by (nonlinear_arith)
            requires
                a == n * q + m,
        ;
        lemma_fundamental_div_mod_converse(-a, n, -q - 1, n - m);
    }
}

fn floor_mod_wide(a: i128, n: i128) -> (r: i128)
    requires
        n != 0,
        -0x8000_0000_0000_0000 <= a <= 0xffff_ffff_ffff_ffff,
        -0x8000_0000_0000_0000 <= n <= 0xffff_ffff_ffff_ffff,
    ensures
        r == floor_mod(a as int, n as int),
        n > 0 ==> 0 <= r < n,
        n < 0 ==> n < r <= 0,
{
    if n > 0 {
        proof {
            lemma_mod_of_negation(-a, n as int);
            lemma_mod_bound(a as int, n as int);
            lemma_mod_bound(-a, n as int);
        }
        let r = a % n;
        if r < 0 {
            r + n
        } else {
            r
        }
    } else {
        proof {
            lemma_mod_of_negation(a as int, -n);
            lemma_mod_bound(a as int, -n);
            lemma_mod_bound(-a, -n);
        }
        let r = (-a) % (-n);
        if r < 0 {
            -(r - n)
        } else {
            -r
        }
    }
}

/// Integers with a remainder that follows the divisor's sign.
pub trait ModuloSignedExt: Sized {
    /// The value as a mathematical integer.
    spec fn as_int(&self) -> int;

    /// `self` modulo `n`: the remainder with the sign of `n`.
    fn modulo(&self, n: Self) -> (r: Self)
        requires
            n.as_int() != 0,
        ensures
            r.as_int() == floor_mod(self.as_int(), n.as_int()),
    ;
}

impl ModuloSignedExt for usize {
    open spec fn as_int(&self) -> int {
        *self as int
    }

    fn modulo(&self, n: usize) -> (r: usize) {
        *self % n
    }
}

impl ModuloSignedExt for i8 {
    open spec fn as_int(&self) -> int {
        *self as int
    }

    fn modulo(&self, n: i8) -> (r: i8) {
        floor_mod_wide(*self as i128, n as i128) as i8
    }
}

impl ModuloSignedExt for i16 {
    open spec fn as_int(&self) -> int {
        *self as int
    }

    fn modulo(&self, n: i16) -> (r: i16) {
        floor_mod_wide(*self as i128, n as i128) as i16
    }
}

impl ModuloSignedExt for i32 {
    open spec fn as_int(&self) -> int {
        *self as int
    }

    fn modulo(&self, n: i32) -> (r: i32) {
        floor_mod_wide(*self as i128, n as i128) as i32
    }
}

impl ModuloSignedExt for i64 {
    open spec fn as_int(&self) -> int {
        *self as int
    }

    fn modulo(&self, n: i64) -> (r: i64) {
        floor_mod_wide(*self as i128, n as i128) as i64
    }
}

} // verus!
