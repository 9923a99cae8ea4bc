//! Exact ratios of 64-bit integers.
//!
//! The host mapping library measures everything that matters here — gradient
//! breakpoints, min/max thresholds, coordinates, per-point values — as
//! floating-point numbers. The library carries them instead as exact ratios
//! `num / den` with a positive denominator, so that normalization and
//! gradient sampling can be specified and proved exactly.

use vstd::prelude::*;

verus! {

/// Magnitude bound under which ratio arithmetic (differences, quotients,
/// gradient sampling) is done exactly in built-in integer types without
/// overflow. `40.123456` degrees, say, is `40123456 / 1000000`, well inside.
pub const FRAC_BOUND: i64 = 100_000_000;

/// An exact ratio `num / den` of two 64-bit integers, standing in for a
/// floating-point quantity of the host mapping library.
///
/// Structural equality (`==`) compares the two fields; equality of the
/// represented rational value is [`Frac::eqv`].
#[derive(Clone, Copy, Debug, PartialEq, Eq, Structural)]
pub struct Frac {
    /// Numerator.
    pub num: i64,
    /// Denominator; always positive in a well-formed ratio.
    pub den: i64,
}

/// `a <= b` as rationals, by cross-multiplication. Meaningful when both
/// denominators are positive.
pub open spec fn frac_le(a: Frac, b: Frac) -> bool {
    a.num * b.den <= b.num * a.den
}

/// `a < b` as rationals, by cross-multiplication. Meaningful when both
/// denominators are positive.
pub open spec fn frac_lt(a: Frac, b: Frac) -> bool {
    a.num * b.den < b.num * a.den
}

/// `a == b` as rationals, by cross-multiplication. Meaningful when both
/// denominators are positive.
pub open spec fn frac_eqv(a: Frac, b: Frac) -> bool {
    a.num * b.den == b.num * a.den
}

/// The product of two values in `i64` range stays well inside `i128` range.
proof fn lemma_i64_mul_fits_i128(a: int, b: int)
    by (nonlinear_arith)
    requires
        i64::MIN <= a <= i64::MAX,
        i64::MIN <= b <= i64::MAX,
    ensures
        -0x8000_0000_0000_0000_0000_0000_0000_0000 <= a * b,
        a * b < 0x8000_0000_0000_0000_0000_0000_0000_0000,
{
}

/// The ratio one.
pub open spec fn frac_one() -> Frac {
    Frac { num: 1, den: 1 }
}

/// The product of two values within [`FRAC_BOUND`] stays well inside `i64`
/// range.
pub proof fn lemma_bounded_mul(a: int, b: int)
    by (nonlinear_arith)
    requires
        -(FRAC_BOUND as int) <= a <= FRAC_BOUND as int,
        -(FRAC_BOUND as int) <= b <= FRAC_BOUND as int,
    ensures
        -(FRAC_BOUND as int) * (FRAC_BOUND as int) <= a * b <= (FRAC_BOUND as int) * (
        FRAC_BOUND as int),
        a * b <= i64::MAX,
        i64::MIN <= a * b,
        a > 0 && b > 0 ==> a * b > 0,
{
}

/// With positive denominators, `<` on ratios is transitive.
pub proof fn lemma_frac_lt_trans(a: Frac, b: Frac, c: Frac)
    by (nonlinear_arith)
    requires
        a.wf(),
        b.wf(),
        c.wf(),
        frac_lt(a, b),
        frac_lt(b, c),
    ensures
        frac_lt(a, c),
{
}

/// With positive denominators, `<=` then `<` on ratios gives `<`.
pub proof fn lemma_frac_le_lt_trans(a: Frac, b: Frac, c: Frac)
    by (nonlinear_arith)
    requires
        a.wf(),
        b.wf(),
        c.wf(),
        frac_le(a, b),
        frac_lt(b, c),
    ensures
        frac_lt(a, c),
{
}

/// A ratio equivalent to `b` sits strictly below whatever `b` sits strictly
/// below.
pub proof fn lemma_frac_eqv_lt_trans(a: Frac, b: Frac, c: Frac)
    by (nonlinear_arith)
    requires
        a.wf(),
        b.wf(),
        c.wf(),
        frac_eqv(a, b),
        frac_lt(b, c),
    ensures
        frac_lt(a, c),
{
}

impl Frac {
    /// Well-formed: the denominator is positive.
    pub open spec fn wf(self) -> bool {
        self.den > 0
    }

    /// Both fields small enough for exact ratio arithmetic; see
    /// [`FRAC_BOUND`].
    pub open spec fn bounded(self) -> bool {
        &&& -(FRAC_BOUND as int) <= self.num <= FRAC_BOUND as int
        &&& 0 < self.den <= FRAC_BOUND as int
    }

    /// The ratio `num / den`.
    pub fn new(num: i64, den: i64) -> (r: Frac)
        requires
            den > 0,
        ensures
            r == (Frac { num, den }),
            r.wf(),
    {
        Frac { num, den }
    }

    /// The whole number `i`, as the ratio `i / 1`.
    pub fn from_int(i: i64) -> (r: Frac)
        ensures
            r == (Frac { num: i, den: 1 }),
            r.wf(),
    {
        Frac { num: i, den: 1 }
    }

    /// Zero.
    pub fn zero() -> (r: Frac)
        ensures
            r == (Frac { num: 0, den: 1 }),
            r.wf(),
    {
        Frac { num: 0, den: 1 }
    }

    /// One.
    pub fn one() -> (r: Frac)
        ensures
            r == (Frac { num: 1, den: 1 }),
            r.wf(),
    {
        Frac { num: 1, den: 1 }
    }

    /// Whether `self <= other` as rationals.
    pub fn le(&self, other: &Frac) -> (r: bool)
        requires
            self.wf(),
            other.wf(),
        ensures
            r == frac_le(*self, *other),
    {
        proof {
            lemma_i64_mul_fits_i128(self.num as int, other.den as int);
            lemma_i64_mul_fits_i128(other.num as int, self.den as int);
        }
        (self.num as i128) * (other.den as i128) <= (other.num as i128) * (self.den as i128)
    }

    /// Whether `self < other` as rationals.
    pub fn lt(&self, other: &Frac) -> (r: bool)
        requires
            self.wf(),
            other.wf(),
        ensures
            r == frac_lt(*self, *other),
    {
        proof {
            lemma_i64_mul_fits_i128(self.num as int, other.den as int);
            lemma_i64_mul_fits_i128(other.num as int, self.den as int);
        }
        (self.num as i128) * (other.den as i128) < (other.num as i128) * (self.den as i128)
    }

    /// Whether `self` and `other` are the same rational value, even when the
    /// two ratios are written differently.
    pub fn eqv(&self, other: &Frac) -> (r: bool)
        requires
            self.wf(),
            other.wf(),
        ensures
            r == frac_eqv(*self, *other),
    {
        proof {
            lemma_i64_mul_fits_i128(self.num as int, other.den as int);
            lemma_i64_mul_fits_i128(other.num as int, self.den as int);
        }
        (self.num as i128) * (other.den as i128) == (other.num as i128) * (self.den as i128)
    }
}

} // verus!
