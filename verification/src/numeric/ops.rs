//! Operators lifted from a scalar kernel to scalars and arrays.
//!
//! A kernel combines two primitives. Lifting decides, from the cardinalities
//! of the operands alone, how often and on what the kernel runs; `NaN`
//! operands never reach a kernel.

use vstd::prelude::*;

use crate::error::Error;
use crate::numeric::float::{Float, FloatUnit};
use crate::numeric::primitive::{narrow, NumericPrimitive};
use crate::numeric::{Number, NumberView, NumericValue};

verus! {

/// A scalar kernel that combines a left primitive of kind `T` with a right
/// primitive of kind `U` into a value of kind `T`.
pub trait DyadicKernel<T: Copy, U: Copy> {
    /// Whether `rule` determines what `run` returns. It does for the integer
    /// kernels; it does not where the host's float unit decides.
    spec fn exact() -> bool;

    /// The value of the kernel on two primitives, where it is `exact`.
    spec fn rule(lhs: T, rhs: U) -> NumericValue<T>;

    fn run(&self, lhs: T, rhs: U) -> (out: Result<NumericValue<T>, Error>)
        ensures
            out is Ok,
            Self::exact() ==> out == Ok::<NumericValue<T>, Error>(Self::rule(lhs, rhs)),
    ;
}

/// The kernel on two values: `NaN` if either is `NaN`.
pub open spec fn combine<T: Copy, U: Copy, K: DyadicKernel<T, U>>(
    lhs: NumericValue<T>,
    rhs: NumericValue<U>,
) -> NumericValue<T> {
    match (lhs, rhs) {
        (NumericValue::Value(l), NumericValue::Value(r)) => K::rule(l, r),
        _ => NumericValue::NaN,
    }
}

/// A scalar reduced across an array, left to right.
pub open spec fn reduce<T: Copy, U: Copy, K: DyadicKernel<T, U>>(
    lhs: NumericValue<T>,
    rhs: Seq<NumericValue<U>>,
) -> NumericValue<T> {
    rhs.fold_left(lhs, |acc: NumericValue<T>, r: NumericValue<U>| combine::<T, U, K>(acc, r))
}

/// The result of a dyadic operator whose kernel is exact.
pub open spec fn dyadic<T: Copy, U: Copy, K: DyadicKernel<T, U>>(
    lhs: NumberView<T>,
    rhs: NumberView<U>,
) -> Result<NumberView<T>, Error> {
    match (lhs, rhs) {
        (NumberView::Scalar(l), NumberView::Scalar(r)) => Ok(
            NumberView::Scalar(combine::<T, U, K>(l, r)),
        ),
        (NumberView::Scalar(l), NumberView::Array(r)) => Ok(
            NumberView::Scalar(reduce::<T, U, K>(l, r)),
        ),
        (NumberView::Array(l), NumberView::Scalar(r)) => Ok(
            NumberView::Array(Seq::new(l.len(), |i: int| combine::<T, U, K>(l[i], r))),
        ),
        (NumberView::Array(l), NumberView::Array(r)) => if l.len() == r.len() {
            Ok(NumberView::Array(Seq::new(l.len(), |i: int| combine::<T, U, K>(l[i], r[i]))))
        } else {
            Err(Error::LengthMismatch)
        },
    }
}

/// What holds of a dyadic result whatever the kernel computes: the result has
/// the cardinality that the operands' cardinalities call for, and it is `NaN`
/// wherever an operand that went into it is `NaN`.
pub open spec fn dyadic_law<T, U>(
    lhs: NumberView<T>,
    rhs: NumberView<U>,
    out: NumberView<T>,
) -> bool {
    match (lhs, rhs) {
        (NumberView::Scalar(l), NumberView::Scalar(r)) => {
            &&& out is Scalar
            &&& (l is NaN || r is NaN) ==> out->Scalar_0 is NaN
        },
        (NumberView::Scalar(l), NumberView::Array(r)) => {
            &&& out is Scalar
            &&& (l is NaN || exists|i: int| 0 <= i < r.len() && r[i] is NaN) ==> out->Scalar_0 is NaN
        },
        (NumberView::Array(l), NumberView::Scalar(r)) => {
            &&& out is Array
            &&& out->Array_0.len() == l.len()
            &&& forall|i: int|
                0 <= i < l.len() && (l[i] is NaN || r is NaN) ==> out->Array_0[i] is NaN
        },
        (NumberView::Array(l), NumberView::Array(r)) => {
            &&& out is Array
            &&& out->Array_0.len() == l.len()
            &&& l.len() == r.len()
            &&& forall|i: int|
                0 <= i < l.len() && (l[i] is NaN || r[i] is NaN) ==> out->Array_0[i] is NaN
        },
    }
}

/// The kernel on two values; a `NaN` operand gives `NaN` without running it.
pub fn operator<T: Copy, U: Copy, K: DyadicKernel<T, U>>(
    kernel: &K,
    lhs: NumericValue<T>,
    rhs: NumericValue<U>,
) -> (out: Result<NumericValue<T>, Error>)
    ensures
        out is Ok,
        (lhs is NaN || rhs is NaN) ==> out == Ok::<NumericValue<T>, Error>(NumericValue::NaN),
        K::exact() ==> out == Ok::<NumericValue<T>, Error>(combine::<T, U, K>(lhs, rhs)),
{
    match (lhs, rhs) {
        (NumericValue::Value(l), NumericValue::Value(r)) => kernel.run(l, r),
        _ => Ok(NumericValue::NaN),
    }
}

/// scalar op scalar = scalar.
pub fn scalar_scalar<T: Copy, U: Copy, K: DyadicKernel<T, U>>(
    kernel: &K,
    lhs: NumericValue<T>,
    rhs: NumericValue<U>,
) -> (out: Result<NumericValue<T>, Error>)
    ensures
        out is Ok,
        (lhs is NaN || rhs is NaN) ==> out == Ok::<NumericValue<T>, Error>(NumericValue::NaN),
        K::exact() ==> out == Ok::<NumericValue<T>, Error>(combine::<T, U, K>(lhs, rhs)),
{
    operator(kernel, lhs, rhs)
}

/// array(n) op array(n) = array(n), element by element; arrays of different
/// lengths are a `LengthMismatch`.
pub fn array_array<T: Copy, U: Copy, K: DyadicKernel<T, U>>(
    kernel: &K,
    lhs: Vec<NumericValue<T>>,
    rhs: &Vec<NumericValue<U>>,
) -> (out: Result<Vec<NumericValue<T>>, Error>)
    ensures
        lhs.len() != rhs.len() ==> out == Err::<Vec<NumericValue<T>>, Error>(Error::LengthMismatch),
        lhs.len() == rhs.len() ==> out is Ok && out->Ok_0.len() == lhs.len(),
        out is Ok ==> forall|i: int|
            0 <= i < lhs.len() && (lhs[i] is NaN || rhs[i] is NaN) ==> out->Ok_0[i] is NaN,
        out is Ok && K::exact() ==> forall|i: int|
            0 <= i < lhs.len() ==> out->Ok_0[i] == combine::<T, U, K>(lhs[i], rhs[i]),
{
    if lhs.len() != rhs.len() {
        return Err(Error::LengthMismatch);
    }
    let ghost before = lhs@;
    let mut lhs = lhs;
    let mut i: usize = 0;
    while i < lhs.len()
        invariant
            i <= lhs.len(),
            lhs.len() == rhs.len(),
            lhs.len() == before.len(),
            forall|j: int| i <= j < lhs.len() ==> lhs[j] == before[j],
            forall|j: int|
                0 <= j < i && (before[j] is NaN || rhs[j] is NaN) ==> lhs[j] is NaN,
            K::exact() ==> forall|j: int|
                0 <= j < i ==> lhs[j] == combine::<T, U, K>(before[j], rhs[j]),
        decreases lhs.len() - i,
    {
        match operator(kernel, lhs[i], rhs[i]) {
            Ok(value) => {
                lhs.set(i, value);
            },
            Err(error) => {
                return Err(error);
            },
        }
        i += 1;
    }
    Ok(lhs)
}

/// array(n) op scalar = array(n): the scalar meets every element.
pub fn array_scalar<T: Copy, U: Copy, K: DyadicKernel<T, U>>(
    kernel: &K,
    lhs: Vec<NumericValue<T>>,
    rhs: NumericValue<U>,
) -> (out: Result<Vec<NumericValue<T>>, Error>)
    ensures
        out is Ok,
        out->Ok_0.len() == lhs.len(),
        forall|i: int| 0 <= i < lhs.len() && (lhs[i] is NaN || rhs is NaN) ==> out->Ok_0[i] is NaN,
        K::exact() ==> forall|i: int|
            0 <= i < lhs.len() ==> out->Ok_0[i] == combine::<T, U, K>(lhs[i], rhs),
{
    let ghost before = lhs@;
    let mut lhs = lhs;
    let mut i: usize = 0;
    while i < lhs.len()
        invariant
            i <= lhs.len(),
            lhs.len() == before.len(),
            forall|j: int| i <= j < lhs.len() ==> lhs[j] == before[j],
            forall|j: int| 0 <= j < i && (before[j] is NaN || rhs is NaN) ==> lhs[j] is NaN,
            K::exact() ==> forall|j: int|
                0 <= j < i ==> lhs[j] == combine::<T, U, K>(before[j], rhs),
        decreases lhs.len() - i,
    {
        match operator(kernel, lhs[i], rhs) {
            Ok(value) => {
                lhs.set(i, value);
            },
            Err(error) => {
                assert(false);
                return Err(error);
            },
        }
        i += 1;
    }
    Ok(lhs)
}

/// scalar op array(n) = scalar: the scalar is folded over the array from its
/// first element to its last.
pub fn scalar_array<T: Copy, U: Copy, K: DyadicKernel<T, U>>(
    kernel: &K,
    lhs: NumericValue<T>,
    rhs: &Vec<NumericValue<U>>,
) -> (out: Result<NumericValue<T>, Error>)
    ensures
        out is Ok,
        (lhs is NaN || exists|i: int| 0 <= i < rhs.len() && rhs[i] is NaN) ==> out->Ok_0 is NaN,
        K::exact() ==> out == Ok::<NumericValue<T>, Error>(reduce::<T, U, K>(lhs, rhs@)),
{
    let ghost step = |acc: NumericValue<T>, r: NumericValue<U>| combine::<T, U, K>(acc, r);
    let mut acc = lhs;
    let mut i: usize = 0;
    while i < rhs.len()
        invariant
            i <= rhs.len(),
            step == |acc: NumericValue<T>, r: NumericValue<U>| combine::<T, U, K>(acc, r),
            (lhs is NaN || exists|j: int| 0 <= j < i && rhs[j] is NaN) ==> acc is NaN,
            K::exact() ==> acc == rhs@.take(i as int).fold_left(lhs, step),
        decreases rhs.len() - i,
    {
        proof {
            let next = rhs@.take(i as int + 1);
            assert(next.drop_last() == rhs@.take(i as int));
            assert(next.last() == rhs[i as int]);
        }
        match operator(kernel, acc, rhs[i]) {
            Ok(value) => {
                acc = value;
            },
            Err(error) => {
                assert(false);
                return Err(error);
            },
        }
        i += 1;
    }
    assert(rhs@.take(rhs.len() as int) == rhs@);
    Ok(acc)
}

/// Whether a dyadic operator refuses its operands: two arrays of different
/// lengths.
pub open spec fn mismatched<T, U>(lhs: NumberView<T>, rhs: NumberView<U>) -> bool {
    lhs is Array && rhs is Array && lhs->Array_0.len() != rhs->Array_0.len()
}

/// An array on the left: the result is an array of the same length.
pub fn target_array<T: Copy, U: Copy, K: DyadicKernel<T, U>>(
    kernel: &K,
    lhs: Vec<NumericValue<T>>,
    rhs: Number<U>,
) -> (out: Result<Vec<NumericValue<T>>, Error>)
    ensures
        match out {
            Ok(array) => dyadic_law(NumberView::Array(lhs@), rhs@, NumberView::Array(array@)),
            Err(error) => error == Error::LengthMismatch && mismatched(
                NumberView::Array(lhs@),
                rhs@,
            ),
        },
        K::exact() ==> match out {
            Ok(array) => dyadic::<T, U, K>(NumberView::Array(lhs@), rhs@) == Ok::<
                NumberView<T>,
                Error,
            >(NumberView::Array(array@)),
            Err(_) => true,
        },
{
    match rhs {
        Number::Array(array) => {
            let out = array_array(kernel, lhs, &array);
            proof {
                if out is Ok && K::exact() {
                    assert(out->Ok_0@ =~= Seq::new(
                        lhs@.len(),
                        |i: int| combine::<T, U, K>(lhs@[i], array@[i]),
                    ));
                }
            }
            out
        },
        Number::Scalar(scalar) => {
            let out = array_scalar(kernel, lhs, scalar);
            proof {
                if K::exact() {
                    assert(out->Ok_0@ =~= Seq::new(
                        lhs@.len(),
                        |i: int| combine::<T, U, K>(lhs@[i], scalar),
                    ));
                }
            }
            out
        },
    }
}

/// A scalar on the left: the result is a scalar.
pub fn target_scalar<T: Copy, U: Copy, K: DyadicKernel<T, U>>(
    kernel: &K,
    lhs: NumericValue<T>,
    rhs: Number<U>,
) -> (out: Result<NumericValue<T>, Error>)
    ensures
        out is Ok,
        dyadic_law(NumberView::Scalar(lhs), rhs@, NumberView::Scalar(out->Ok_0)),
        K::exact() ==> dyadic::<T, U, K>(NumberView::Scalar(lhs), rhs@) == Ok::<
            NumberView<T>,
            Error,
        >(NumberView::Scalar(out->Ok_0)),
{
    match rhs {
        Number::Array(array) => scalar_array(kernel, lhs, &array),
        Number::Scalar(scalar) => scalar_scalar(kernel, lhs, scalar),
    }
}

/// A dyadic operator on two numbers. The left operand decides the kind and,
/// with the right operand, the cardinality of the result:
/// scalar op scalar = scalar, array(n) op array(n) = array(n),
/// array(n) op scalar = array(n), scalar op array(n) = scalar.
pub fn apply<T: Copy, U: Copy, K: DyadicKernel<T, U>>(
    kernel: &K,
    lhs: Number<T>,
    rhs: Number<U>,
) -> (out: Result<Number<T>, Error>)
    ensures
        match out {
            Ok(number) => dyadic_law(lhs@, rhs@, number@),
            Err(error) => error == Error::LengthMismatch && mismatched(lhs@, rhs@),
        },
        K::exact() ==> match out {
            Ok(number) => dyadic::<T, U, K>(lhs@, rhs@) == Ok::<NumberView<T>, Error>(number@),
            Err(_) => true,
        },
{
    match lhs {
        Number::Array(array) => match target_array(kernel, array, rhs) {
            Ok(array) => Ok(Number::Array(array)),
            Err(error) => Err(error),
        },
        Number::Scalar(scalar) => match target_scalar(kernel, scalar, rhs) {
            Ok(scalar) => Ok(Number::Scalar(scalar)),
            Err(error) => Err(error),
        },
    }
}

/// A scalar kernel on one primitive of kind `T`.
pub trait MonadicKernel<T: Copy> {
    /// Whether `rule` determines what `run` returns.
    spec fn exact() -> bool;

    /// The value of the kernel on a primitive, where it is `exact`.
    spec fn rule(scalar: T) -> NumericValue<T>;

    fn run(&self, scalar: T) -> (out: Result<NumericValue<T>, Error>)
        ensures
            out is Ok,
            Self::exact() ==> out == Ok::<NumericValue<T>, Error>(Self::rule(scalar)),
    ;
}

/// The kernel on a value: `NaN` stays `NaN`.
pub open spec fn transform<T: Copy, K: MonadicKernel<T>>(
    scalar: NumericValue<T>,
) -> NumericValue<T> {
    match scalar {
        NumericValue::Value(value) => K::rule(value),
        NumericValue::NaN => NumericValue::NaN,
    }
}

/// The result of a monadic operator whose kernel is exact.
pub open spec fn monadic<T: Copy, K: MonadicKernel<T>>(
    val: NumberView<T>,
) -> NumberView<T> {
    match val {
        NumberView::Array(array) => NumberView::Array(
            Seq::new(array.len(), |i: int| transform::<T, K>(array[i])),
        ),
        NumberView::Scalar(scalar) => NumberView::Scalar(transform::<T, K>(scalar)),
    }
}

/// What holds of a monadic result whatever the kernel computes: the result has
/// the operand's cardinality, and it is `NaN` wherever the operand is.
pub open spec fn monadic_law<T>(val: NumberView<T>, out: NumberView<T>) -> bool {
    match val {
        NumberView::Array(array) => {
            &&& out is Array
            &&& out->Array_0.len() == array.len()
            &&& forall|i: int| 0 <= i < array.len() && array[i] is NaN ==> out->Array_0[i] is NaN
        },
        NumberView::Scalar(scalar) => {
            &&& out is Scalar
            &&& scalar is NaN ==> out->Scalar_0 is NaN
        },
    }
}

/// The kernel on one value; `NaN` gives `NaN` without running it.
pub fn monadic_scalar<T: Copy, K: MonadicKernel<T>>(kernel: &K, scalar: NumericValue<T>) -> (out:
    Result<NumericValue<T>, Error>)
    ensures
        out is Ok,
        scalar is NaN ==> out == Ok::<NumericValue<T>, Error>(NumericValue::NaN),
        K::exact() ==> out == Ok::<NumericValue<T>, Error>(transform::<T, K>(scalar)),
{
    match scalar {
        NumericValue::Value(value) => kernel.run(value),
        NumericValue::NaN => Ok(NumericValue::NaN),
    }
}

/// The kernel on every element of an array.
pub fn monadic_array<T: Copy, K: MonadicKernel<T>>(kernel: &K, array: Vec<NumericValue<T>>) -> (out:
    Result<Vec<NumericValue<T>>, Error>)
    ensures
        out is Ok,
        out->Ok_0.len() == array.len(),
        forall|i: int| 0 <= i < array.len() && array[i] is NaN ==> out->Ok_0[i] is NaN,
        K::exact() ==> forall|i: int|
            0 <= i < array.len() ==> out->Ok_0[i] == transform::<T, K>(array[i]),
{
    let ghost before = array@;
    let mut array = array;
    let mut i: usize = 0;
    while i < array.len()
        invariant
            i <= array.len(),
            array.len() == before.len(),
            forall|j: int| i <= j < array.len() ==> array[j] == before[j],
            forall|j: int| 0 <= j < i && before[j] is NaN ==> array[j] is NaN,
            K::exact() ==> forall|j: int|
                0 <= j < i ==> array[j] == transform::<T, K>(before[j]),
        decreases array.len() - i,
    {
        match monadic_scalar(kernel, array[i]) {
            Ok(value) => {
                array.set(i, value);
            },
            Err(error) => {
                assert(false);
                return Err(error);
            },
        }
        i += 1;
    }
    Ok(array)
}

/// A monadic operator on a number: the result has the operand's kind and
/// cardinality.
pub fn monadic_apply<T: Copy, K: MonadicKernel<T>>(kernel: &K, val: Number<T>) -> (out: Result<
    Number<T>,
    Error,
>)
    ensures
        out is Ok,
        monadic_law(val@, out->Ok_0@),
        K::exact() ==> out->Ok_0@ == monadic::<T, K>(val@),
{
    match val {
        Number::Array(array) => match monadic_array(kernel, array) {
            Ok(out) => {
                proof {
                    if K::exact() {
                        assert(out@ =~= Seq::new(
                            array@.len(),
                            |i: int| transform::<T, K>(array@[i]),
                        ));
                    }
                }
                Ok(Number::Array(out))
            },
            Err(error) => Err(error),
        },
        Number::Scalar(scalar) => match monadic_scalar(kernel, scalar) {
            Ok(out) => Ok(Number::Scalar(out)),
            Err(error) => Err(error),
        },
    }
}

/// A value from what the mathematics gives: the integer in kind `T` if there
/// is a result and the kind can hold it, `NaN` otherwise.
pub open spec fn settle<T: NumericPrimitive>(v: Option<int>) -> NumericValue<T> {
    match v {
        Some(v) => match narrow::<T>(v) {
            Some(value) => NumericValue::Value(value),
            None => NumericValue::NaN,
        },
        None => NumericValue::NaN,
    }
}

/// Conversion between a kind of the tower and the floating-point kind, by
/// way of the host's float unit.
pub trait CastFromFloat: Copy + Sized {
    /// The float in this kind: `None` if it is not finite or out of range.
    fn cast<F: FloatUnit>(unit: &F, f: Float) -> Option<Self>;

    /// This value as a float.
    fn as_float<F: FloatUnit>(&self, unit: &F) -> Float;
}

/// The value that an outcome of the float unit stands for: the value it
/// holds, `NaN` where it holds none.
pub open spec fn outcome<T>(result: Option<T>) -> NumericValue<T> {
    match result {
        Some(value) => NumericValue::Value(value),
        None => NumericValue::NaN,
    }
}

/// The value that an outcome of the float unit stands for. Whatever the
/// float unit answers, this is what becomes of its answer.
pub fn settled<T: Copy>(result: Option<T>) -> (out: NumericValue<T>)
    ensures
        out == outcome(result),
{
    match result {
        Some(value) => NumericValue::Value(value),
        None => NumericValue::NaN,
    }
}

impl CastFromFloat for Float {
    /// A float is a float as it is: the cast to the float kind never fails.
    fn cast<F: FloatUnit>(unit: &F, f: Float) -> (out: Option<Self>)
        ensures
            out == Some(f),
    {
        Some(f)
    }

    /// A float is a float as it is.
    fn as_float<F: FloatUnit>(&self, unit: &F) -> (out: Float)
        ensures
            out == *self,
    {
        *self
    }
}

impl CastFromFloat for i64 {
    fn cast<F: FloatUnit>(unit: &F, f: Float) -> Option<Self> {
        unit.to_int(f)
    }

    fn as_float<F: FloatUnit>(&self, unit: &F) -> Float {
        unit.from_int(*self)
    }
}

impl CastFromFloat for usize {
    fn cast<F: FloatUnit>(unit: &F, f: Float) -> Option<Self> {
        unit.to_usize(f)
    }

    fn as_float<F: FloatUnit>(&self, unit: &F) -> Float {
        unit.from_usize(*self)
    }
}

/// An operator on one operand, given by its kernels: one for the integer
/// kinds, one for the floating-point kind.
pub trait MonadicOp {
    /// Whether `rule` determines the integer kernel. It does not where the
    /// operator computes through the float unit.
    spec fn exact() -> bool;

    /// The result of the integer kernel on `value`, in a kind that is
    /// `signed` or not, where the kernel is `exact`; `None` where the
    /// operator has no result.
    spec fn rule(value: int, signed: bool) -> Option<int>;

    fn func<T: NumericPrimitive + CastFromFloat, F: FloatUnit>(unit: &F, scalar: T) -> (out: Result<
        NumericValue<T>,
        Error,
    >)
        ensures
            out is Ok,
            Self::exact() ==> out == Ok::<NumericValue<T>, Error>(
                settle::<T>(Self::rule(scalar.value(), T::signed())),
            ),
    ;

    fn float_func<F: FloatUnit>(unit: &F, scalar: Float) -> (out: Result<Option<Float>, Error>)
        ensures
            out is Ok,
    ;
}

/// An operator on one operand that computes in floating point whatever the
/// kind of its operand.
pub trait FloatMonadicOp {
    fn float_func<F: FloatUnit>(unit: &F, a: Float) -> (out: Result<Option<Float>, Error>)
        ensures
            out is Ok,
    ;
}

impl<S: FloatMonadicOp> MonadicOp for S {
    open spec fn exact() -> bool {
        false
    }

    open spec fn rule(value: int, signed: bool) -> Option<int> {
        None
    }

    /// The operand as a float, the float kernel on it, and the result cast
    /// back: `NaN` where the kernel has no result or the kind cannot hold it.
    fn func<T: NumericPrimitive + CastFromFloat, F: FloatUnit>(unit: &F, scalar: T) -> (out: Result<
        NumericValue<T>,
        Error,
    >) {
        match <S as FloatMonadicOp>::float_func(unit, scalar.as_float(unit)) {
            Ok(Some(value)) => Ok(settled(T::cast(unit, value))),
            Ok(None) => Ok(NumericValue::NaN),
            Err(error) => Err(error),
        }
    }

    fn float_func<F: FloatUnit>(unit: &F, scalar: Float) -> (out: Result<Option<Float>, Error>) {
        <S as FloatMonadicOp>::float_func(unit, scalar)
    }
}

/// An operator on two operands, given by its kernels: one for the integer
/// kinds, one for the floating-point kind.
pub trait DyadicOp {
    /// The result on two integers, `None` where the operator has none.
    spec fn exact(lhs: int, rhs: int) -> Option<int>;

    /// The integer kernel: the exact result if kind `T` can hold it, `NaN`
    /// otherwise.
    fn func<T: NumericPrimitive>(lhs: T, rhs: T) -> (out: Result<NumericValue<T>, Error>)
        ensures
            out == Ok::<NumericValue<T>, Error>(
                settle::<T>(Self::exact(lhs.value(), rhs.value())),
            ),
    ;

    fn float_func<F: FloatUnit>(unit: &F, lhs: Float, rhs: Float) -> (out: Result<
        Option<Float>,
        Error,
    >)
        ensures
            out is Ok,
    ;
}

} // verus!
