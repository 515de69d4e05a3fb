//! The caster matrix: for each ordered pair of kinds, the intermediate kind
//! in which a dyadic operator computes, and the cast back to the left kind.
//!
//! | left \ right | signed | unsigned | float |
//! |---|---|---|---|
//! | signed | signed | wide | float |
//! | unsigned | wide | unsigned | float |
//! | float | float | float | float |
//!
//! Each kernel here is one intermediate kind. A result that the left kind
//! cannot hold is `NaN`; nothing is ever promoted.

use core::marker::PhantomData;
use vstd::prelude::*;

use crate::error::Error;
use crate::numeric::float::{Float, FloatUnit};
use crate::numeric::ops::{
    settle, settled, CastFromFloat, DyadicKernel, DyadicOp, MonadicKernel, MonadicOp,
};
use crate::numeric::primitive::NumericPrimitive;
use crate::numeric::{CastFrom128, NumericValue};

verus! {

/// Both operands are of one integer kind, and the operator computes in it.
pub struct Direct<D> {
    op: PhantomData<D>,
}

impl<D> Direct<D> {
    pub fn new() -> Self {
        Direct { op: PhantomData }
    }
}

impl<T: NumericPrimitive, D: DyadicOp> DyadicKernel<T, T> for Direct<D> {
    open spec fn exact() -> bool {
        true
    }

    open spec fn rule(lhs: T, rhs: T) -> NumericValue<T> {
        settle::<T>(D::exact(lhs.value(), rhs.value()))
    }

    fn run(&self, lhs: T, rhs: T) -> (out: Result<NumericValue<T>, Error>) {
        D::func(lhs, rhs)
    }
}

/// The operands are of two integer kinds: the operator computes in the wide
/// kind, which holds every value of both, and the result is cast back to the
/// left kind.
pub struct Wide<D> {
    op: PhantomData<D>,
}

impl<D> Wide<D> {
    pub fn new() -> Self {
        Wide { op: PhantomData }
    }
}

impl<T: CastFrom128, U: NumericPrimitive, D: DyadicOp> DyadicKernel<T, U> for Wide<D> {
    open spec fn exact() -> bool {
        true
    }

    open spec fn rule(lhs: T, rhs: U) -> NumericValue<T> {
        settle::<T>(D::exact(lhs.value(), rhs.value()))
    }

    fn run(&self, lhs: T, rhs: U) -> (out: Result<NumericValue<T>, Error>) {
        let mid = D::func::<i128>(lhs.widen(), rhs.widen());
        proof {
            if let Some(v) = D::exact(lhs.value(), rhs.value()) {
                if T::fits(v) {
                    T::lemma_fits_wide(v);
                }
            }
        }
        match mid {
            Ok(NumericValue::Value(mid)) => match T::cast(mid) {
                Some(value) => Ok(NumericValue::Value(value)),
                None => Ok(NumericValue::NaN),
            },
            Ok(NumericValue::NaN) => Ok(NumericValue::NaN),
            Err(error) => Err(error),
        }
    }
}

/// Overflow gives `NaN`: where the result of an operator on two primitives of
/// one kind is more than the kind can hold, or less, the value is `NaN`.
pub proof fn lemma_overflow_is_nan<T: NumericPrimitive, D: DyadicOp>(lhs: T, rhs: T)
    requires
        D::exact(lhs.value(), rhs.value()) matches Some(v) && !T::fits(v),
    ensures
        <Direct<D> as DyadicKernel<T, T>>::rule(lhs, rhs) is NaN,
{
}

/// A cast out of range gives `NaN`: where the result of an operator on
/// primitives of two kinds is negative for an unsigned left kind, or out of
/// the range of the left kind, the value is `NaN`.
pub proof fn lemma_out_of_range_is_nan<T: CastFrom128, U: NumericPrimitive, D: DyadicOp>(
    lhs: T,
    rhs: U,
)
    requires
        D::exact(lhs.value(), rhs.value()) matches Some(v) && !T::fits(v),
    ensures
        <Wide<D> as DyadicKernel<T, U>>::rule(lhs, rhs) is NaN,
{
}

/// Where the left kind can hold the result of an operator, the value is that
/// result, whether the operands are of one kind or of two.
pub proof fn lemma_result_in_range<T: CastFrom128, U: NumericPrimitive, D: DyadicOp>(
    lhs: T,
    rhs: U,
    same: T,
)
    requires
        D::exact(lhs.value(), rhs.value()) matches Some(v) && T::fits(v),
        same.value() == rhs.value(),
    ensures
        <Wide<D> as DyadicKernel<T, U>>::rule(lhs, rhs) == NumericValue::Value(
            T::of(D::exact(lhs.value(), rhs.value())->Some_0),
        ),
        <Direct<D> as DyadicKernel<T, T>>::rule(lhs, same) == NumericValue::Value(
            T::of(D::exact(lhs.value(), rhs.value())->Some_0),
        ),
{
}

/// An operand is a float: both operands are taken to floats, the operator
/// computes by the host's float unit, and the result is cast back to the left
/// kind.
pub struct Floating<'a, D, F> {
    unit: &'a F,
    op: PhantomData<D>,
}

impl<'a, D, F> Floating<'a, D, F> {
    /// The float unit that the kernel computes by.
    pub closed spec fn unit(&self) -> F {
        *self.unit
    }

    /// The kernel that computes by `unit`.
    pub fn new(unit: &'a F) -> (out: Self)
        ensures
            out.unit() == *unit,
    {
        Floating { unit, op: PhantomData }
    }
}

impl<'a, T: CastFromFloat, U: CastFromFloat, D: DyadicOp, F: FloatUnit> DyadicKernel<
    T,
    U,
> for Floating<'a, D, F> {
    open spec fn exact() -> bool {
        false
    }

    open spec fn rule(lhs: T, rhs: U) -> NumericValue<T> {
        NumericValue::NaN
    }

    fn run(&self, lhs: T, rhs: U) -> (out: Result<NumericValue<T>, Error>) {
        let mid = D::float_func(self.unit, lhs.as_float(self.unit), rhs.as_float(self.unit));
        match mid {
            Ok(Some(mid)) => Ok(settled(T::cast(self.unit, mid))),
            Ok(None) => Ok(NumericValue::NaN),
            Err(error) => Err(error),
        }
    }
}

/// A monadic operator on an integer kind.
pub struct Integral<'a, M, F> {
    unit: &'a F,
    op: PhantomData<M>,
}

impl<'a, M, F> Integral<'a, M, F> {
    /// The float unit that the kernel computes by.
    pub closed spec fn unit(&self) -> F {
        *self.unit
    }

    /// The kernel that computes by `unit`.
    pub fn new(unit: &'a F) -> (out: Self)
        ensures
            out.unit() == *unit,
    {
        Integral { unit, op: PhantomData }
    }
}

impl<'a, T: NumericPrimitive + CastFromFloat, M: MonadicOp, F: FloatUnit> MonadicKernel<
    T,
> for Integral<'a, M, F> {
    open spec fn exact() -> bool {
        M::exact()
    }

    open spec fn rule(scalar: T) -> NumericValue<T> {
        settle::<T>(M::rule(scalar.value(), T::signed()))
    }

    fn run(&self, scalar: T) -> (out: Result<NumericValue<T>, Error>) {
        M::func(self.unit, scalar)
    }
}

/// A monadic operator on the floating-point kind.
pub struct Fractional<'a, M, F> {
    unit: &'a F,
    op: PhantomData<M>,
}

impl<'a, M, F> Fractional<'a, M, F> {
    /// The float unit that the kernel computes by.
    pub closed spec fn unit(&self) -> F {
        *self.unit
    }

    /// The kernel that computes by `unit`.
    pub fn new(unit: &'a F) -> (out: Self)
        ensures
            out.unit() == *unit,
    {
        Fractional { unit, op: PhantomData }
    }
}

impl<'a, M: MonadicOp, F: FloatUnit> MonadicKernel<Float> for Fractional<'a, M, F> {
    open spec fn exact() -> bool {
        false
    }

    open spec fn rule(scalar: Float) -> NumericValue<Float> {
        NumericValue::NaN
    }

    fn run(&self, scalar: Float) -> (out: Result<NumericValue<Float>, Error>) {
        match M::float_func(self.unit, scalar) {
            Ok(result) => Ok(settled(result)),
            Err(error) => Err(error),
        }
    }
}

} // verus!
