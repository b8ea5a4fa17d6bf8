//! Parity rules of the repeating surface patterns.
//!
//! A pattern is evaluated at a point of pattern space and picks one of its
//! two base colors. For the repeating patterns the pick depends only on
//! integer parts of pattern-space coordinates, and alternates by parity:
//!
//! * stripe: the first color on bands where `floor(x)` is even;
//! * ring: the first color on rings where `floor(sqrt(x*x + z*z))` is even;
//! * checker: the first color on cells where `floor(x) + floor(y) +
//!   floor(z)` is even.
//!
//! The embedding renderer computes the floors (and for rings the distance
//! from the y axis, using the squared-distance form `x*x + z*z`) and these
//! functions decide the pick. Keeping the parity rule on integers makes the
//! alternation exact also on the negative side of an axis, where `floor`
//! and remainder signs are easy to get wrong.

use vstd::prelude::*;

verus! {

/// Whether an integer is even.
pub open spec fn is_even(n: int) -> bool {
    n % 2 == 0
}

/// Whether a stripe pattern shows its first color: on bands where the
/// integer part `fx` of the pattern-space x coordinate is even.
pub fn stripe_takes_first(fx: i64) -> (r: bool)
    ensures
        r == is_even(fx as int),
{
    fx % 2 == 0
}

/// Whether a ring pattern shows its first color: on rings where the
/// integer part `fring` of the distance from the y axis is even.
pub fn ring_takes_first(fring: u64) -> (r: bool)
    ensures
        r == is_even(fring as int),
{
    fring % 2 == 0
}

/// Whether a checker pattern shows its first color: on cells where the
/// integer parts of the three pattern-space coordinates have an even sum.
pub fn checker_takes_first(fx: i64, fy: i64, fz: i64) -> (r: bool)
    ensures
        r == is_even(fx + fy + fz),
{
    proof {
        lemma_parity_of_sum(fx as int, fy as int, fz as int);
    }
    let ex = fx % 2 == 0;
    let ey = fy % 2 == 0;
    let ez = fz % 2 == 0;
    (ex == (ey == ez))
}

/// The parity of a sum of three integers is even exactly when an even
/// number of them are odd.
proof fn lemma_parity_of_sum(a: int, b: int, c: int)
    by (nonlinear_arith)
    ensures
        is_even(a + b + c) == (is_even(a) == (is_even(b) == is_even(c))),
{
}

} // verus!
