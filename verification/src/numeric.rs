//! The numeric tower: values that are a primitive or `NaN`, numbers that are a
//! scalar or an array of such values, and the operators lifted over them.

use vstd::prelude::*;

pub mod caster;
pub mod float;
pub mod ops;
pub mod ops_defs;
pub mod primitive;

use primitive::{narrow, NumericPrimitive};

verus! {

/// Back-cast from the wide intermediate kind: the value if the target kind
/// can hold it, `None` if it is negative for an unsigned kind or out of range.
pub trait CastFrom128: NumericPrimitive {
    fn cast(i: i128) -> (out: Option<Self>)
        ensures
            out == narrow::<Self>(i as int),
    ;
}

impl CastFrom128 for i64 {
    fn cast(i: i128) -> (out: Option<Self>) {
        if i > i64::MAX as i128 || i < i64::MIN as i128 {
            None
        } else {
            Some(i as i64)
        }
    }
}

impl CastFrom128 for usize {
    fn cast(i: i128) -> (out: Option<Self>) {
        if i > usize::MAX as i128 || i < usize::MIN as i128 {
            None
        } else {
            Some(i as usize)
        }
    }
}

impl CastFrom128 for i128 {
    fn cast(i: i128) -> (out: Option<Self>) {
        Some(i)
    }
}

/// A primitive of kind `T`, or the absence of one.
#[derive(Debug, Clone, Copy, PartialEq)]
pub enum NumericValue<T> {
    Value(T),
    NaN,
}

impl<T: Copy> NumericValue<T> {
    pub fn is_nan(self) -> (out: bool)
        ensures
            out == (self is NaN),
    {
        match self {
            NumericValue::NaN => true,
            NumericValue::Value(_) => false,
        }
    }

    /// The primitive inside a value that is not `NaN`.
    pub fn to_primitive(self) -> (out: T)
        requires
            self is Value,
        ensures
            self == NumericValue::Value(out),
    {
        match self {
            NumericValue::Value(value) => value,
            NumericValue::NaN => vstd::pervasive::unreached(),
        }
    }

    pub fn from_primitive(value: T) -> (out: Self)
        ensures
            out == NumericValue::Value(value),
    {
        NumericValue::Value(value)
    }
}

impl<T: NumericPrimitive> NumericValue<T> {
    /// What `to_value` yields: the same integer in kind `U` if that kind can
    /// hold it, `NaN` otherwise.
    pub open spec fn converted<U: NumericPrimitive>(self) -> NumericValue<U> {
        match self {
            NumericValue::Value(value) => match narrow::<U>(value.value()) {
                Some(cast) => NumericValue::Value(cast),
                None => NumericValue::NaN,
            },
            NumericValue::NaN => NumericValue::NaN,
        }
    }

    /// The value in another kind; `NaN` stays `NaN`, and a value that the
    /// other kind cannot hold becomes `NaN`.
    pub fn to_value<U: CastFrom128>(self) -> (out: NumericValue<U>)
        ensures
            out == self.converted::<U>(),
    {
        match self {
            NumericValue::Value(value) => match U::cast(value.widen()) {
                Some(cast) => NumericValue::Value(cast),
                None => NumericValue::NaN,
            },
            NumericValue::NaN => NumericValue::NaN,
        }
    }
}

/// A number: one value, or an array of values.
#[derive(Debug, Clone, PartialEq)]
pub enum Number<T> {
    Array(Vec<NumericValue<T>>),
    Scalar(NumericValue<T>),
}

/// The mathematical content of a [`Number`].
pub ghost enum NumberView<T> {
    Array(Seq<NumericValue<T>>),
    Scalar(NumericValue<T>),
}

impl<T> View for Number<T> {
    type V = NumberView<T>;

    open spec fn view(&self) -> NumberView<T> {
        match *self {
            Number::Array(array) => NumberView::Array(array@),
            Number::Scalar(scalar) => NumberView::Scalar(scalar),
        }
    }
}

impl<T> From<NumericValue<T>> for Number<T> {
    fn from(item: NumericValue<T>) -> (out: Self) {
        Number::Scalar(item)
    }
}

impl<T> vstd::std_specs::convert::FromSpecImpl<NumericValue<T>> for Number<T> {
    open spec fn obeys_from_spec() -> bool {
        true
    }

    open spec fn from_spec(item: NumericValue<T>) -> Self {
        Number::Scalar(item)
    }
}

impl<T> From<Vec<NumericValue<T>>> for Number<T> {
    fn from(item: Vec<NumericValue<T>>) -> (out: Self) {
        Number::Array(item)
    }
}

impl<T> vstd::std_specs::convert::FromSpecImpl<Vec<NumericValue<T>>> for Number<T> {
    open spec fn obeys_from_spec() -> bool {
        true
    }

    open spec fn from_spec(item: Vec<NumericValue<T>>) -> Self {
        Number::Array(item)
    }
}

impl<T> NumberView<T> {
    /// `None` for a scalar, the number of elements for an array.
    pub open spec fn cardinality(self) -> Option<nat> {
        match self {
            NumberView::Array(array) => Some(array.len()),
            NumberView::Scalar(_) => None,
        }
    }
}

/// A copy of an array of values.
pub fn copy_array<T: Copy>(array: &Vec<NumericValue<T>>) -> (out: Vec<NumericValue<T>>)
    ensures
        out@ == array@,
{
    let mut out: Vec<NumericValue<T>> = Vec::new();
    let mut i: usize = 0;
    while i < array.len()
        invariant
            i <= array.len(),
            out@ == array@.take(i as int),
        decreases array.len() - i,
    {
        out.push(array[i]);
        i += 1;
    }
    out
}

impl<T: Copy> Number<T> {
    /// A copy that holds the same values.
    pub fn copy(&self) -> (out: Number<T>)
        ensures
            out@ == self@,
    {
        match self {
            Number::Array(array) => Number::Array(copy_array(array)),
            Number::Scalar(scalar) => Number::Scalar(*scalar),
        }
    }
}

} // verus!
