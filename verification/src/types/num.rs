//! The number that the engine carries: one of three kinds, each a scalar or an
//! array.

use vstd::prelude::*;

use crate::error::Error;
use crate::numeric::caster::{Direct, Floating, Fractional, Integral, Wide};
use crate::numeric::float::{Float, FloatUnit};
use crate::numeric::ops::{
    apply, dyadic, dyadic_law, monadic_apply, monadic_law, settle, DyadicOp, MonadicOp,
};
use crate::numeric::ops_defs::{AddOp, CosOp, DivOp, MulOp, NegOp, SubOp};
use crate::numeric::primitive::NumericPrimitive;
use crate::numeric::{Number, NumberView, NumericValue};

verus! {

/// A number of the signed, the floating-point or the unsigned kind.
#[derive(Debug, Clone, PartialEq)]
pub enum Num {
    Int(Number<i64>),
    Float(Number<Float>),
    USize(Number<usize>),
}

/// The mathematical content of a [`Num`].
pub ghost enum NumView {
    Int(NumberView<i64>),
    Float(NumberView<Float>),
    USize(NumberView<usize>),
}

impl View for Num {
    type V = NumView;

    open spec fn view(&self) -> NumView {
        match *self {
            Num::Int(number) => NumView::Int(number@),
            Num::Float(number) => NumView::Float(number@),
            Num::USize(number) => NumView::USize(number@),
        }
    }
}

impl From<Number<i64>> for Num {
    fn from(item: Number<i64>) -> (out: Self) {
        Num::Int(item)
    }
}

impl vstd::std_specs::convert::FromSpecImpl<Number<i64>> for Num {
    open spec fn obeys_from_spec() -> bool {
        true
    }

    open spec fn from_spec(item: Number<i64>) -> Self {
        Num::Int(item)
    }
}

impl From<Number<Float>> for Num {
    fn from(item: Number<Float>) -> (out: Self) {
        Num::Float(item)
    }
}

impl vstd::std_specs::convert::FromSpecImpl<Number<Float>> for Num {
    open spec fn obeys_from_spec() -> bool {
        true
    }

    open spec fn from_spec(item: Number<Float>) -> Self {
        Num::Float(item)
    }
}

impl From<Number<usize>> for Num {
    fn from(item: Number<usize>) -> (out: Self) {
        Num::USize(item)
    }
}

impl vstd::std_specs::convert::FromSpecImpl<Number<usize>> for Num {
    open spec fn obeys_from_spec() -> bool {
        true
    }

    open spec fn from_spec(item: Number<usize>) -> Self {
        Num::USize(item)
    }
}

/// What holds of `out`, the result of a monadic operator on `val`, whatever
/// the operator: it is of the kind and cardinality of `val`, and `NaN`
/// wherever `val` is.
pub open spec fn num_monadic_law(val: NumView, out: NumView) -> bool {
    match val {
        NumView::Int(v) => out is Int && monadic_law(v, out->Int_0),
        NumView::Float(v) => out is Float && monadic_law(v, out->Float_0),
        NumView::USize(v) => out is USize && monadic_law(v, out->USize_0),
    }
}

/// The result of a monadic operator with an exact integer kernel on a value
/// of an integer kind: what the operator's rule gives where the kind can hold
/// it, `NaN` where it cannot, and `NaN` for `NaN`.
pub open spec fn value_monadic<M: MonadicOp, T: NumericPrimitive>(
    value: NumericValue<T>,
) -> NumericValue<T> {
    match value {
        NumericValue::Value(v) => settle::<T>(M::rule(v.value(), T::signed())),
        NumericValue::NaN => NumericValue::NaN,
    }
}

/// The result of a monadic operator with an exact integer kernel on a number
/// of an integer kind: the rule on the scalar, or on every element.
pub open spec fn number_monadic<M: MonadicOp, T: NumericPrimitive>(
    val: NumberView<T>,
) -> NumberView<T> {
    match val {
        NumberView::Array(array) => NumberView::Array(
            Seq::new(array.len(), |i: int| value_monadic::<M, T>(array[i])),
        ),
        NumberView::Scalar(scalar) => NumberView::Scalar(value_monadic::<M, T>(scalar)),
    }
}

/// The result of a monadic operator with an exact integer kernel on a number
/// of an integer kind.
pub open spec fn num_monadic<M: MonadicOp>(val: NumView) -> NumView {
    match val {
        NumView::Int(v) => NumView::Int(number_monadic::<M, i64>(v)),
        NumView::USize(v) => NumView::USize(number_monadic::<M, usize>(v)),
        NumView::Float(v) => val,
    }
}

/// What holds of `out`, the result of a dyadic operator on `lhs` and `rhs`,
/// whatever the operator: it is of the kind of `lhs`, of the cardinality that
/// the two cardinalities call for, and `NaN` wherever an operand that went
/// into it is.
pub open spec fn num_dyadic_law(lhs: NumView, rhs: NumView, out: NumView) -> bool {
    match lhs {
        NumView::Int(l) => out is Int && match rhs {
            NumView::Int(r) => dyadic_law(l, r, out->Int_0),
            NumView::Float(r) => dyadic_law(l, r, out->Int_0),
            NumView::USize(r) => dyadic_law(l, r, out->Int_0),
        },
        NumView::Float(l) => out is Float && match rhs {
            NumView::Int(r) => dyadic_law(l, r, out->Float_0),
            NumView::Float(r) => dyadic_law(l, r, out->Float_0),
            NumView::USize(r) => dyadic_law(l, r, out->Float_0),
        },
        NumView::USize(l) => out is USize && match rhs {
            NumView::Int(r) => dyadic_law(l, r, out->USize_0),
            NumView::Float(r) => dyadic_law(l, r, out->USize_0),
            NumView::USize(r) => dyadic_law(l, r, out->USize_0),
        },
    }
}

/// Whether a dyadic operator refuses two numbers: both are arrays, and their
/// lengths differ.
pub open spec fn num_mismatched(lhs: NumView, rhs: NumView) -> bool {
    match (lhs.cardinality(), rhs.cardinality()) {
        (Some(l), Some(r)) => l != r,
        _ => false,
    }
}

/// The result of a dyadic operator on two numbers of integer kinds that it
/// does not refuse. Operands of one kind meet in that kind; a signed and an
/// unsigned operand meet in the wide kind, whose result is cast back.
pub open spec fn num_dyadic<D: DyadicOp>(lhs: NumView, rhs: NumView) -> NumView {
    match (lhs, rhs) {
        (NumView::Int(l), NumView::Int(r)) => NumView::Int(
            dyadic::<i64, i64, Direct<D>>(l, r)->Ok_0,
        ),
        (NumView::Int(l), NumView::USize(r)) => NumView::Int(
            dyadic::<i64, usize, Wide<D>>(l, r)->Ok_0,
        ),
        (NumView::USize(l), NumView::Int(r)) => NumView::USize(
            dyadic::<usize, i64, Wide<D>>(l, r)->Ok_0,
        ),
        (NumView::USize(l), NumView::USize(r)) => NumView::USize(
            dyadic::<usize, usize, Direct<D>>(l, r)->Ok_0,
        ),
        _ => lhs,
    }
}

/// The cardinality law: scalar op scalar = scalar, array(n) op array(n) =
/// array(n), array(n) op scalar = array(n), scalar op array(n) = scalar. The
/// result of a dyadic operator has the cardinality of its left operand, and
/// two arrays that an operator accepts have one length.
pub proof fn lemma_cardinality(lhs: NumView, rhs: NumView, out: NumView)
    requires
        num_dyadic_law(lhs, rhs, out),
    ensures
        out.cardinality() == lhs.cardinality(),
        lhs.cardinality() is Some && rhs.cardinality() is Some ==> lhs.cardinality()
            == rhs.cardinality(),
        !num_mismatched(lhs, rhs),
{
}

/// The kind law: the result of an operator is of the kind of its left, or
/// only, operand.
pub proof fn lemma_kind(lhs: NumView, rhs: NumView, val: NumView, out: NumView)
    requires
        num_dyadic_law(lhs, rhs, out) || (num_monadic_law(val, out) && lhs == val),
    ensures
        out is Int <==> lhs is Int,
        out is Float <==> lhs is Float,
        out is USize <==> lhs is USize,
{
}

/// The `NaN` law on scalars: a `NaN` operand gives a `NaN` result, whatever
/// the kinds and the operator.
pub proof fn lemma_nan_operand(lhs: NumView, rhs: NumView, out: NumView)
    requires
        num_dyadic_law(lhs, rhs, out),
        lhs.cardinality() is None,
        rhs.cardinality() is None,
        lhs.is_nan() || rhs.is_nan(),
    ensures
        out.is_nan(),
{
}

impl NumView {
    /// Whether a scalar is `NaN`.
    pub open spec fn is_nan(self) -> bool {
        match self {
            NumView::Int(number) => number is Scalar && number->Scalar_0 is NaN,
            NumView::Float(number) => number is Scalar && number->Scalar_0 is NaN,
            NumView::USize(number) => number is Scalar && number->Scalar_0 is NaN,
        }
    }

    /// `None` for a scalar, the number of elements for an array.
    pub open spec fn cardinality(self) -> Option<nat> {
        match self {
            NumView::Int(number) => number.cardinality(),
            NumView::Float(number) => number.cardinality(),
            NumView::USize(number) => number.cardinality(),
        }
    }
}

impl Num {
    /// `None` for a scalar, the number of elements for an array.
    pub fn cardinality(&self) -> (out: Option<usize>)
        ensures
            match out {
                Some(n) => self@.cardinality() == Some(n as nat),
                None => self@.cardinality() is None,
            },
    {
        match self {
            Num::Int(Number::Array(array)) => Some(array.len()),
            Num::Float(Number::Array(array)) => Some(array.len()),
            Num::USize(Number::Array(array)) => Some(array.len()),
            _ => None,
        }
    }

    /// A copy that holds the same values.
    pub fn copy(&self) -> (out: Num)
        ensures
            out@ == self@,
    {
        match self {
            Num::Int(number) => Num::Int(number.copy()),
            Num::Float(number) => Num::Float(number.copy()),
            Num::USize(number) => Num::USize(number.copy()),
        }
    }

    /// The monadic operator `M` on this number. The result has the kind and
    /// the cardinality of the operand and is `NaN` wherever the operand is;
    /// on an integer kind it is exactly what the operator's rule gives.
    pub fn apply_monadic<M: MonadicOp, F: FloatUnit>(self, unit: &F) -> (out: Result<Num, Error>)
        ensures
            out is Ok,
            num_monadic_law(self@, out->Ok_0@),
            M::exact() && !(self@ is Float) ==> out->Ok_0@ == num_monadic::<M>(self@),
    {
        match self {
            Num::Int(i) => match monadic_apply(&Integral::<M, F>::new(unit), i) {
                Ok(number) => {
                    assert(M::exact() ==> number@ =~= number_monadic::<M, i64>(i@)) by {
                        if M::exact() && i@ is Array {
                            assert(number@->Array_0 =~= number_monadic::<M, i64>(i@)->Array_0);
                        }
                    }
                    Ok(Num::Int(number))
                },
                Err(error) => Err(error),
            },
            Num::Float(f) => match monadic_apply(&Fractional::<M, F>::new(unit), f) {
                Ok(number) => Ok(Num::Float(number)),
                Err(error) => Err(error),
            },
            Num::USize(u) => match monadic_apply(&Integral::<M, F>::new(unit), u) {
                Ok(number) => {
                    assert(M::exact() ==> number@ =~= number_monadic::<M, usize>(u@)) by {
                        if M::exact() && u@ is Array {
                            assert(number@->Array_0 =~= number_monadic::<M, usize>(u@)->Array_0);
                        }
                    }
                    Ok(Num::USize(number))
                },
                Err(error) => Err(error),
            },
        }
    }

    /// `-self`.
    pub fn neg<F: FloatUnit>(self, unit: &F) -> (out: Result<Num, Error>)
        ensures
            out is Ok,
            num_monadic_law(self@, out->Ok_0@),
            !(self@ is Float) ==> out->Ok_0@ == num_monadic::<NegOp>(self@),
    {
        self.apply_monadic::<NegOp, F>(unit)
    }

    /// The cosine of `self`, computed by the float unit and cast back to the
    /// kind of `self`.
    pub fn cos<F: FloatUnit>(self, unit: &F) -> (out: Result<Num, Error>)
        ensures
            out is Ok,
            num_monadic_law(self@, out->Ok_0@),
    {
        self.apply_monadic::<CosOp, F>(unit)
    }

    /// `self + rhs`.
    pub fn add<F: FloatUnit>(self, rhs: Num, unit: &F) -> (out: Result<Num, Error>)
        ensures
            match out {
                Ok(number) => !num_mismatched(self@, rhs@) && num_dyadic_law(
                    self@,
                    rhs@,
                    number@,
                ),
                Err(error) => error == Error::LengthMismatch && num_mismatched(self@, rhs@),
            },
            out is Ok && !(self@ is Float) && !(rhs@ is Float) ==> out->Ok_0@ == num_dyadic::<
                AddOp,
            >(self@, rhs@),
    {
        self.apply_dyadic::<AddOp, F>(rhs, unit)
    }

    /// `self - rhs`.
    pub fn sub<F: FloatUnit>(self, rhs: Num, unit: &F) -> (out: Result<Num, Error>)
        ensures
            match out {
                Ok(number) => !num_mismatched(self@, rhs@) && num_dyadic_law(
                    self@,
                    rhs@,
                    number@,
                ),
                Err(error) => error == Error::LengthMismatch && num_mismatched(self@, rhs@),
            },
            out is Ok && !(self@ is Float) && !(rhs@ is Float) ==> out->Ok_0@ == num_dyadic::<
                SubOp,
            >(self@, rhs@),
    {
        self.apply_dyadic::<SubOp, F>(rhs, unit)
    }

    /// `self * rhs`.
    pub fn mul<F: FloatUnit>(self, rhs: Num, unit: &F) -> (out: Result<Num, Error>)
        ensures
            match out {
                Ok(number) => !num_mismatched(self@, rhs@) && num_dyadic_law(
                    self@,
                    rhs@,
                    number@,
                ),
                Err(error) => error == Error::LengthMismatch && num_mismatched(self@, rhs@),
            },
            out is Ok && !(self@ is Float) && !(rhs@ is Float) ==> out->Ok_0@ == num_dyadic::<
                MulOp,
            >(self@, rhs@),
    {
        self.apply_dyadic::<MulOp, F>(rhs, unit)
    }

    /// `self / rhs`.
    pub fn div<F: FloatUnit>(self, rhs: Num, unit: &F) -> (out: Result<Num, Error>)
        ensures
            match out {
                Ok(number) => !num_mismatched(self@, rhs@) && num_dyadic_law(
                    self@,
                    rhs@,
                    number@,
                ),
                Err(error) => error == Error::LengthMismatch && num_mismatched(self@, rhs@),
            },
            out is Ok && !(self@ is Float) && !(rhs@ is Float) ==> out->Ok_0@ == num_dyadic::<
                DivOp,
            >(self@, rhs@),
    {
        self.apply_dyadic::<DivOp, F>(rhs, unit)
    }

    /// The dyadic operator `D` on this number and `rhs`.
    ///
    /// Two arrays of different lengths are refused with `LengthMismatch`,
    /// and nothing else is. The result has the kind of the left operand and
    /// the cardinality that the cardinality law gives; it is `NaN` wherever
    /// an operand that went into it is. Where neither operand is a float the
    /// result is exactly what the operator's rule gives: the mathematical
    /// result where the left kind can hold it, `NaN` where it cannot.
    pub fn apply_dyadic<D: DyadicOp, F: FloatUnit>(self, rhs: Num, unit: &F) -> (out: Result<
        Num,
        Error,
    >)
        ensures
            match out {
                Ok(number) => !num_mismatched(self@, rhs@) && num_dyadic_law(
                    self@,
                    rhs@,
                    number@,
                ),
                Err(error) => error == Error::LengthMismatch && num_mismatched(self@, rhs@),
            },
            out is Ok && !(self@ is Float) && !(rhs@ is Float) ==> out->Ok_0@ == num_dyadic::<D>(
                self@,
                rhs@,
            ),
    {
        match self {
            Num::Int(lhs) => {
                let out = match rhs {
                    Num::Int(rhs) => apply(&Direct::<D>::new(), lhs, rhs),
                    Num::Float(rhs) => apply(&Floating::<D, F>::new(unit), lhs, rhs),
                    Num::USize(rhs) => apply(&Wide::<D>::new(), lhs, rhs),
                };
                match out {
                    Ok(number) => Ok(Num::Int(number)),
                    Err(error) => Err(error),
                }
            },
            Num::Float(lhs) => {
                let out = match rhs {
                    Num::Int(rhs) => apply(&Floating::<D, F>::new(unit), lhs, rhs),
                    Num::Float(rhs) => apply(&Floating::<D, F>::new(unit), lhs, rhs),
                    Num::USize(rhs) => apply(&Floating::<D, F>::new(unit), lhs, rhs),
                };
                match out {
                    Ok(number) => Ok(Num::Float(number)),
                    Err(error) => Err(error),
                }
            },
            Num::USize(lhs) => {
                let out = match rhs {
                    Num::Int(rhs) => apply(&Wide::<D>::new(), lhs, rhs),
                    Num::Float(rhs) => apply(&Floating::<D, F>::new(unit), lhs, rhs),
                    Num::USize(rhs) => apply(&Direct::<D>::new(), lhs, rhs),
                };
                match out {
                    Ok(number) => Ok(Num::USize(number)),
                    Err(error) => Err(error),
                }
            },
        }
    }
}

} // verus!
