//! The scalar-field abstraction: the element type of the matrices.
//!
//! The exponential algorithm is generic over a real or complex scalar
//! field. The field's arithmetic (IEEE-754 doubles, complex doubles, ...)
//! cannot be reasoned about directly here, so each operation comes with an
//! abstract specification function that the implementing type provides;
//! every contract of this crate speaks of the operations through these
//! models. An implementation lives outside the verified library (it is
//! supplied by the user of the crate), so nothing is proved about the
//! concrete arithmetic itself: the contracts pin down exactly which field
//! operations are applied to which operands, and in which order.

use vstd::prelude::*;

verus! {

/// A real or complex scalar field, as the exponential algorithm needs it:
/// ring operations, division, magnitude (`abs`), power with a real
/// exponent, scalar exponential, base-two logarithm, rounding up,
/// magnitude comparison, a recognized zero, and conversions from the
/// unsigned integers that the Padé coefficient tables are made of.
///
/// For a complex field, `abs`, `powf`, `log2`, `ceil`, `lt`, and
/// `trunc_u64` are only ever applied by this crate to magnitudes, that is
/// to real-valued members of the field.
pub trait ScalarField: Sized + Copy {
    /// Model of the field's zero.
    spec fn zero_s() -> Self;

    /// Model of the field's one.
    spec fn one_s() -> Self;

    /// Model of conversion from an unsigned integer.
    spec fn from_u128_s(v: u128) -> Self;

    /// Model of addition.
    spec fn add_s(a: Self, b: Self) -> Self;

    /// Model of subtraction.
    spec fn sub_s(a: Self, b: Self) -> Self;

    /// Model of multiplication.
    spec fn mul_s(a: Self, b: Self) -> Self;

    /// Model of division.
    spec fn div_s(a: Self, b: Self) -> Self;

    /// Model of negation.
    spec fn neg_s(a: Self) -> Self;

    /// Model of the magnitude (absolute value), itself a field member.
    spec fn abs_s(a: Self) -> Self;

    /// Model of raising to a (real-valued) power.
    spec fn powf_s(a: Self, e: Self) -> Self;

    /// Model of the scalar exponential.
    spec fn exp_s(a: Self) -> Self;

    /// Model of the base-two logarithm.
    spec fn log2_s(a: Self) -> Self;

    /// Model of rounding up to an integral value.
    spec fn ceil_s(a: Self) -> Self;

    /// Model of the magnitude comparison `a < b`.
    spec fn lt_s(a: Self, b: Self) -> bool;

    /// Model of the test against the field's recognized zero.
    spec fn is_zero_s(a: Self) -> bool;

    /// Model of truncation of a nonnegative integral value to `u64`.
    spec fn trunc_u64_s(a: Self) -> u64;

    fn zero() -> (r: Self)
        ensures
            r == Self::zero_s(),
    ;

    fn one() -> (r: Self)
        ensures
            r == Self::one_s(),
    ;

    fn from_u64(v: u64) -> (r: Self)
        ensures
            r == Self::from_u128_s(v as u128),
    ;

    fn from_u128(v: u128) -> (r: Self)
        ensures
            r == Self::from_u128_s(v),
    ;

    fn plus(a: Self, b: Self) -> (r: Self)
        ensures
            r == Self::add_s(a, b),
    ;

    fn minus(a: Self, b: Self) -> (r: Self)
        ensures
            r == Self::sub_s(a, b),
    ;

    fn times(a: Self, b: Self) -> (r: Self)
        ensures
            r == Self::mul_s(a, b),
    ;

    fn divide(a: Self, b: Self) -> (r: Self)
        ensures
            r == Self::div_s(a, b),
    ;

    fn negate(a: Self) -> (r: Self)
        ensures
            r == Self::neg_s(a),
    ;

    fn abs(a: Self) -> (r: Self)
        ensures
            r == Self::abs_s(a),
    ;

    fn powf(a: Self, e: Self) -> (r: Self)
        ensures
            r == Self::powf_s(a, e),
    ;

    fn exp(a: Self) -> (r: Self)
        ensures
            r == Self::exp_s(a),
    ;

    fn log2(a: Self) -> (r: Self)
        ensures
            r == Self::log2_s(a),
    ;

    fn ceil(a: Self) -> (r: Self)
        ensures
            r == Self::ceil_s(a),
    ;

    fn lt(a: Self, b: Self) -> (r: bool)
        ensures
            r == Self::lt_s(a, b),
    ;

    fn is_zero(a: Self) -> (r: bool)
        ensures
            r == Self::is_zero_s(a),
    ;

    fn trunc_u64(a: Self) -> (r: u64)
        ensures
            r == Self::trunc_u64_s(a),
    ;
}

/// The greater of two magnitudes: `b` when `a < b`, else `a`.
pub open spec fn max_s<S: ScalarField>(a: S, b: S) -> S {
    if S::lt_s(a, b) {
        b
    } else {
        a
    }
}

/// The lesser of two magnitudes: `b` when `b < a`, else `a`.
pub open spec fn min_s<S: ScalarField>(a: S, b: S) -> S {
    if S::lt_s(b, a) {
        b
    } else {
        a
    }
}

/// The greater of two magnitudes.
pub fn scalar_max<S: ScalarField>(a: S, b: S) -> (r: S)
    ensures
        r == max_s(a, b),
{
    if S::lt(a, b) {
        b
    } else {
        a
    }
}

/// The lesser of two magnitudes.
pub fn scalar_min<S: ScalarField>(a: S, b: S) -> (r: S)
    ensures
        r == min_s(a, b),
{
    if S::lt(b, a) {
        b
    } else {
        a
    }
}

} // verus!
