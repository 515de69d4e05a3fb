//! Floating-point values as the library carries them, and the arithmetic on
//! them that the host supplies.

use vstd::prelude::*;

verus! {

/// A binary64 floating-point value, held by its IEEE-754 bit pattern. The
/// library stores, copies and compares such values; it never computes with
/// them itself.
#[derive(Clone, Copy, Debug, PartialEq, Eq, Structural)]
pub struct Float {
    pub bits: u64,
}

/// The floating-point arithmetic of the host. Each operation follows the
/// discipline of the numeric tower: a result that is not finite, or that the
/// target kind cannot hold, is reported as `None` and becomes `NaN`.
///
/// The library promises nothing about the values an implementation returns and
/// relies on none: whatever comes back, the shape of a result and the places
/// where it is `NaN` because an operand was are decided by verified code.
pub trait FloatUnit {
    /// `lhs + rhs`, or `None` unless the sum is finite.
    fn add(&self, lhs: Float, rhs: Float) -> Option<Float>;

    /// `lhs - rhs`, or `None` unless the difference is finite.
    fn sub(&self, lhs: Float, rhs: Float) -> Option<Float>;

    /// `lhs * rhs`, or `None` unless the product is finite.
    fn mul(&self, lhs: Float, rhs: Float) -> Option<Float>;

    /// `lhs / rhs`, or `None` unless the quotient is finite.
    fn div(&self, lhs: Float, rhs: Float) -> Option<Float>;

    /// `-value`.
    fn neg(&self, value: Float) -> Option<Float>;

    /// The cosine of `value`.
    fn cos(&self, value: Float) -> Option<Float>;

    /// The floating-point value nearest to a signed integer.
    fn from_int(&self, value: i64) -> Float;

    /// The floating-point value nearest to an unsigned integer.
    fn from_usize(&self, value: usize) -> Float;

    /// `value` rounded to a signed integer, or `None` if it is not finite or
    /// out of range.
    fn to_int(&self, value: Float) -> Option<i64>;

    /// `value` rounded to an unsigned integer, or `None` if it is not finite
    /// or out of range.
    fn to_usize(&self, value: Float) -> Option<usize>;

    /// The value that a float literal denotes, or `None` if the text is none.
    fn parse(&self, text: &str) -> Option<Float>;

    /// The text that prints `value`.
    fn show(&self, value: Float) -> String;
}

} // verus!
