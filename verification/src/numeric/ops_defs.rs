//! The built-in operators of the numeric tower.

use vstd::prelude::*;

use crate::error::Error;
use crate::numeric::float::{Float, FloatUnit};
use crate::numeric::ops::{settle, CastFromFloat, DyadicOp, FloatMonadicOp, MonadicOp};
use crate::numeric::primitive::{quotient, NumericPrimitive};
use crate::numeric::NumericValue;

verus! {

/// Negation. A signed value whose negative the kind cannot hold, and every
/// unsigned value, gives `NaN`.
pub struct NegOp;

impl MonadicOp for NegOp {
    open spec fn exact() -> bool {
        true
    }

    open spec fn rule(value: int, signed: bool) -> Option<int> {
        if signed {
            Some(-value)
        } else {
            None
        }
    }

    fn func<T: NumericPrimitive + CastFromFloat, F: FloatUnit>(unit: &F, scalar: T) -> (out: Result<
        NumericValue<T>,
        Error,
    >) {
        if let Some(value) = scalar.checked_neg() {
            Ok(NumericValue::Value(value))
        } else {
            Ok(NumericValue::NaN)
        }
    }

    fn float_func<F: FloatUnit>(unit: &F, scalar: Float) -> (out: Result<Option<Float>, Error>) {
        Ok(unit.neg(scalar))
    }
}

/// Cosine, computed in floating point for every kind of operand.
pub struct CosOp;

impl FloatMonadicOp for CosOp {
    fn float_func<F: FloatUnit>(unit: &F, a: Float) -> (out: Result<Option<Float>, Error>) {
        Ok(unit.cos(a))
    }
}

/// Addition; a sum that the kind cannot hold gives `NaN`.
pub struct AddOp;

impl DyadicOp for AddOp {
    open spec fn exact(lhs: int, rhs: int) -> Option<int> {
        Some(lhs + rhs)
    }

    fn func<T: NumericPrimitive>(lhs: T, rhs: T) -> (out: Result<NumericValue<T>, Error>) {
        if let Some(value) = lhs.checked_add(&rhs) {
            Ok(NumericValue::Value(value))
        } else {
            Ok(NumericValue::NaN)
        }
    }

    fn float_func<F: FloatUnit>(unit: &F, lhs: Float, rhs: Float) -> (out: Result<
        Option<Float>,
        Error,
    >) {
        Ok(unit.add(lhs, rhs))
    }
}

/// Subtraction; a difference that the kind cannot hold gives `NaN`.
pub struct SubOp;

impl DyadicOp for SubOp {
    open spec fn exact(lhs: int, rhs: int) -> Option<int> {
        Some(lhs - rhs)
    }

    fn func<T: NumericPrimitive>(lhs: T, rhs: T) -> (out: Result<NumericValue<T>, Error>) {
        if let Some(value) = lhs.checked_sub(&rhs) {
            Ok(NumericValue::Value(value))
        } else {
            Ok(NumericValue::NaN)
        }
    }

    fn float_func<F: FloatUnit>(unit: &F, lhs: Float, rhs: Float) -> (out: Result<
        Option<Float>,
        Error,
    >) {
        Ok(unit.sub(lhs, rhs))
    }
}

/// Multiplication; a product that the kind cannot hold gives `NaN`.
pub struct MulOp;

impl DyadicOp for MulOp {
    open spec fn exact(lhs: int, rhs: int) -> Option<int> {
        Some(lhs * rhs)
    }

    fn func<T: NumericPrimitive>(lhs: T, rhs: T) -> (out: Result<NumericValue<T>, Error>) {
        if let Some(value) = lhs.checked_mul(&rhs) {
            Ok(NumericValue::Value(value))
        } else {
            Ok(NumericValue::NaN)
        }
    }

    fn float_func<F: FloatUnit>(unit: &F, lhs: Float, rhs: Float) -> (out: Result<
        Option<Float>,
        Error,
    >) {
        Ok(unit.mul(lhs, rhs))
    }
}

/// Division, rounded toward zero; division by zero, and a quotient that the
/// kind cannot hold, give `NaN`.
pub struct DivOp;

impl DyadicOp for DivOp {
    open spec fn exact(lhs: int, rhs: int) -> Option<int> {
        if rhs == 0 {
            None
        } else {
            Some(quotient(lhs, rhs))
        }
    }

    fn func<T: NumericPrimitive>(lhs: T, rhs: T) -> (out: Result<NumericValue<T>, Error>) {
        if let Some(value) = lhs.checked_div(&rhs) {
            Ok(NumericValue::Value(value))
        } else {
            Ok(NumericValue::NaN)
        }
    }

    fn float_func<F: FloatUnit>(unit: &F, lhs: Float, rhs: Float) -> (out: Result<
        Option<Float>,
        Error,
    >) {
        Ok(unit.div(lhs, rhs))
    }
}

/// Division by zero gives `NaN`, in every integer kind and whatever the
/// dividend.
pub proof fn lemma_division_by_zero_is_nan<T: NumericPrimitive>(lhs: T, rhs: T)
    requires
        rhs.value() == 0,
    ensures
        settle::<T>(DivOp::exact(lhs.value(), rhs.value())) is NaN,
{
}

/// Negation gives `NaN` on every value of a kind without negative values,
/// and on the one value of a signed kind whose negative the kind cannot hold.
pub proof fn lemma_negation_is_nan<T: NumericPrimitive>(value: T)
    requires
        !T::signed() || !T::fits(-value.value()),
    ensures
        settle::<T>(NegOp::rule(value.value(), T::signed())) is NaN,
{
}

} // verus!
