//! Checked fixed-point arithmetic.
//!
//! Every reserve, price and share quantity is a `Fixed`: an unsigned 128-bit
//! count of units of `1 / SCALE`. Addition and subtraction fail instead of
//! wrapping or saturating, multiplication and division are computed through
//! exact double-width intermediates, and the square root is the exact floor
//! of the mathematical root at the same precision.

use vstd::prelude::*;
use crate::errors::Error;
use crate::wide::{wide, wide_mul, wide_isqrt, wide_div, sqrt_floor};
use vstd::arithmetic::div_mod::lemma_fundamental_div_mod;
use vstd::arithmetic::div_mod::lemma_mod_bound;
use vstd::arithmetic::mul::lemma_mul_inequality;

verus! {

/// The number of inner units in one whole fixed-point unit.
pub const SCALE: u128 = 1_000_000_000_000_000_000;

/// A non-negative fixed-point quantity: `inner / SCALE` whole units.
#[derive(Clone, Copy, Debug, PartialEq, Eq, Structural)]
pub struct Fixed {
    pub inner: u128,
}

/// For a positive divisor, the quotient reaches a bound exactly when the
/// dividend reaches the divisor times that bound.
proof fn lemma_div_reaches(n: int, s: int, t: int)
    requires
        s > 0,
        t >= 0,
    ensures
        (n / s >= t) <==> (n >= s * t),
{
    lemma_fundamental_div_mod(n, s);
    lemma_mod_bound(n, s);
    let q = n / s;
    if q >= t {
        lemma_mul_inequality(t, q, s);
        assert(t * s == s * t && q * s == s * q) by (nonlinear_arith);
    }
    if n >= s * t && q < t {
        lemma_mul_inequality(q + 1, t, s);
        assert((q + 1) * s == q * s + s) by (nonlinear_arith);
        assert(t * s == s * t && q * s == s * q) by (nonlinear_arith);
        assert(false);
    }
}

impl Fixed {
    /// Wraps a raw inner representation, as read from the storage boundary.
    pub fn from_inner(v: u128) -> (r: Fixed)
        ensures
            r.inner == v,
    {
        Fixed { inner: v }
    }

    /// Unwraps to the raw inner representation used at the storage boundary.
    pub fn into_inner(self) -> (r: u128)
        ensures
            r == self.inner,
    {
        self.inner
    }

    /// Whether the quantity is exactly zero.
    pub fn is_zero(self) -> (r: bool)
        ensures
            r == (self.inner == 0),
    {
        self.inner == 0
    }

    /// Exact addition; fails instead of wrapping.
    pub fn checked_add(self, other: Fixed) -> (r: Result<Fixed, Error>)
        ensures
            self.inner + other.inner <= u128::MAX
                ==> r == Ok::<Fixed, Error>(Fixed { inner: (self.inner + other.inner) as u128 }),
            self.inner + other.inner > u128::MAX
                ==> r == Err::<Fixed, Error>(Error::ArithmeticOverflow),
    {
        if self.inner <= u128::MAX - other.inner {
            Ok(Fixed { inner: self.inner + other.inner })
        } else {
            Err(Error::ArithmeticOverflow)
        }
    }

    /// Exact subtraction; fails instead of wrapping.
    pub fn checked_sub(self, other: Fixed) -> (r: Result<Fixed, Error>)
        ensures
            self.inner >= other.inner
                ==> r == Ok::<Fixed, Error>(Fixed { inner: (self.inner - other.inner) as u128 }),
            self.inner < other.inner
                ==> r == Err::<Fixed, Error>(Error::ArithmeticUnderflow),
    {
        if self.inner >= other.inner {
            Ok(Fixed { inner: self.inner - other.inner })
        } else {
            Err(Error::ArithmeticUnderflow)
        }
    }

    /// Exact fixed-point product, rounded down to the inner unit; fails
    /// exactly when the true product does not fit.
    pub fn checked_mul(self, other: Fixed) -> (r: Result<Fixed, Error>)
        ensures
            self.inner * other.inner / (SCALE as int) <= u128::MAX
                ==> (r matches Ok(v) && v.inner == self.inner * other.inner / (SCALE as int)),
            self.inner * other.inner / (SCALE as int) > u128::MAX
                ==> r == Err::<Fixed, Error>(Error::ArithmeticOverflow),
    {
        let (phi, plo) = wide_mul(self.inner, other.inner);
        proof {
            lemma_div_reaches(wide(phi, plo), SCALE as int, 0x100000000000000000000000000000000int);
        }
        match wide_div(phi, plo, SCALE) {
            Some(q) => Ok(Fixed { inner: q }),
            None => Err(Error::ArithmeticOverflow),
        }
    }

    /// Exact fixed-point quotient, rounded down to the inner unit; fails on a
    /// zero divisor, and fails exactly when the true quotient does not fit.
    pub fn checked_div(self, other: Fixed) -> (r: Result<Fixed, Error>)
        ensures
            other.inner == 0 ==> r == Err::<Fixed, Error>(Error::DivisionByZero),
            other.inner != 0 && self.inner * SCALE / (other.inner as int) <= u128::MAX
                ==> (r matches Ok(v) && v.inner == self.inner * SCALE / (other.inner as int)),
            other.inner != 0 && self.inner * SCALE / (other.inner as int) > u128::MAX
                ==> r == Err::<Fixed, Error>(Error::ArithmeticOverflow),
    {
        if other.inner == 0 {
            return Err(Error::DivisionByZero);
        }
        let (phi, plo) = wide_mul(self.inner, SCALE);
        proof {
            lemma_div_reaches(
                wide(phi, plo),
                other.inner as int,
                0x100000000000000000000000000000000int,
            );
        }
        match wide_div(phi, plo, other.inner) {
            Some(q) => Ok(Fixed { inner: q }),
            None => Err(Error::ArithmeticOverflow),
        }
    }

    /// The floor of the square root at fixed-point precision: the inner
    /// representation of the result is the integer root of `inner * SCALE`.
    pub fn sqrt(self) -> (r: Fixed)
        ensures
            r.inner == sqrt_floor(self.inner * SCALE),
    {
        let (phi, plo) = wide_mul(self.inner, SCALE);
        let root = wide_isqrt(phi, plo);
        Fixed { inner: root }
    }
}

} // verus!
