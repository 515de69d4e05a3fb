//! The integer primitives that arithmetic is carried out in.

use vstd::prelude::*;

verus! {

/// Quotient of `x` by a non-zero `d`, rounded toward zero.
pub open spec fn quotient(x: int, d: int) -> int {
    if x == 0 {
        0
    } else if x > 0 && d > 0 {
        x / d
    } else if x < 0 && d < 0 {
        (x * -1) / (d * -1)
    } else if x < 0 {
        ((x * -1) / d) * -1
    } else {
        (x / (d * -1)) * -1
    }
}

/// The primitive of kind `T` that holds the integer `v`, if the kind has one.
pub open spec fn narrow<T: NumericPrimitive>(v: int) -> Option<T> {
    if T::fits(v) {
        Some(T::of(v))
    } else {
        None
    }
}

/// An integer kind with checked arithmetic: each operation yields the exact
/// mathematical result, or `None` when that result has no representation.
pub trait NumericPrimitive: Copy + Sized {
    /// The integer that this primitive stands for.
    spec fn value(self) -> int;

    /// Whether the kind can represent `v`.
    spec fn fits(v: int) -> bool;

    /// The primitive that stands for `v`, meaningful where `fits(v)`.
    spec fn of(v: int) -> Self;

    /// Whether the kind has negative values. A kind without them has no
    /// negation, not even of zero.
    spec fn signed() -> bool;


    /// `of` and `value` are inverse to each other on the representable range.
    proof fn lemma_round_trip(self)
        ensures
            Self::fits(self.value()),
            Self::of(self.value()) == self,
    ;

    /// `of` is a right inverse of `value` on the representable range.
    proof fn lemma_of_value(v: int)
        requires
            Self::fits(v),
        ensures
            Self::of(v).value() == v,
    ;

    /// Whatever a kind can hold, the widest kind can hold.
    proof fn lemma_fits_wide(v: int)
        requires
            Self::fits(v),
        ensures
            i128::MIN <= v <= i128::MAX,
    ;

    fn checked_add(&self, rhs: &Self) -> (out: Option<Self>)
        ensures
            out == if Self::fits(self.value() + rhs.value()) {
                Some(Self::of(self.value() + rhs.value()))
            } else {
                None
            },
    ;

    fn checked_sub(&self, rhs: &Self) -> (out: Option<Self>)
        ensures
            out == if Self::fits(self.value() - rhs.value()) {
                Some(Self::of(self.value() - rhs.value()))
            } else {
                None
            },
    ;

    fn checked_mul(&self, rhs: &Self) -> (out: Option<Self>)
        ensures
            out == if Self::fits(self.value() * rhs.value()) {
                Some(Self::of(self.value() * rhs.value()))
            } else {
                None
            },
    ;

    fn checked_div(&self, rhs: &Self) -> (out: Option<Self>)
        ensures
            out == if rhs.value() == 0 {
                None
            } else {
                if Self::fits(quotient(self.value(), rhs.value())) {
                Some(Self::of(quotient(self.value(), rhs.value())))
            } else {
                None
            }
            },
    ;

    fn checked_neg(&self) -> (out: Option<Self>)
        ensures
            out == if Self::signed() {
                if Self::fits(-self.value()) {
                Some(Self::of(-self.value()))
            } else {
                None
            }
            } else {
                None
            },
    ;

    /// Whether the primitive is below zero.
    fn is_negative(&self) -> (out: bool)
        ensures
            out == (self.value() < 0),
    ;

    /// The primitive as an offset, by the truncating conversion of the platform.
    fn as_index(&self) -> (out: usize)
        ensures
            out == self.value() as usize,
    ;

    /// The primitive in the widest kind, which holds every value of every kind.
    fn widen(&self) -> (out: i128)
        ensures
            out == self.value(),
    ;
}

impl NumericPrimitive for i64 {
    open spec fn value(self) -> int {
        self as int
    }

    open spec fn fits(v: int) -> bool {
        i64::MIN <= v <= i64::MAX
    }

    open spec fn of(v: int) -> Self {
        v as i64
    }

    open spec fn signed() -> bool {
        true
    }

    proof fn lemma_round_trip(self) {
    }

    proof fn lemma_of_value(v: int) {
    }

    proof fn lemma_fits_wide(v: int) {
    }

    fn checked_add(&self, rhs: &Self) -> (out: Option<Self>) {
        i64::checked_add(*self, *rhs)
    }

    fn checked_sub(&self, rhs: &Self) -> (out: Option<Self>) {
        i64::checked_sub(*self, *rhs)
    }

    fn checked_mul(&self, rhs: &Self) -> (out: Option<Self>) {
        i64::checked_mul(*self, *rhs)
    }

    fn checked_div(&self, rhs: &Self) -> (out: Option<Self>) {
        i64::checked_div(*self, *rhs)
    }

    fn checked_neg(&self) -> (out: Option<Self>) {
        i64::checked_sub(0, *self)
    }

    fn is_negative(&self) -> (out: bool) {
        *self < 0
    }

    fn as_index(&self) -> (out: usize) {
        #[verifier::truncate]
        (*self as usize)
    }

    fn widen(&self) -> (out: i128) {
        *self as i128
    }
}

impl NumericPrimitive for usize {
    open spec fn value(self) -> int {
        self as int
    }

    open spec fn fits(v: int) -> bool {
        0 <= v <= usize::MAX
    }

    open spec fn of(v: int) -> Self {
        v as usize
    }

    open spec fn signed() -> bool {
        false
    }

    proof fn lemma_round_trip(self) {
    }

    proof fn lemma_of_value(v: int) {
    }

    proof fn lemma_fits_wide(v: int) {
    }

    fn checked_add(&self, rhs: &Self) -> (out: Option<Self>) {
        usize::checked_add(*self, *rhs)
    }

    fn checked_sub(&self, rhs: &Self) -> (out: Option<Self>) {
        usize::checked_sub(*self, *rhs)
    }

    fn checked_mul(&self, rhs: &Self) -> (out: Option<Self>) {
        usize::checked_mul(*self, *rhs)
    }

    fn checked_div(&self, rhs: &Self) -> (out: Option<Self>) {
        usize::checked_div(*self, *rhs)
    }

    fn checked_neg(&self) -> (out: Option<Self>) {
        None
    }

    fn is_negative(&self) -> (out: bool) {
        false
    }

    fn as_index(&self) -> (out: usize) {
        *self
    }

    fn widen(&self) -> (out: i128) {
        *self as i128
    }
}

impl NumericPrimitive for i128 {
    open spec fn value(self) -> int {
        self as int
    }

    open spec fn fits(v: int) -> bool {
        i128::MIN <= v <= i128::MAX
    }

    open spec fn of(v: int) -> Self {
        v as i128
    }

    open spec fn signed() -> bool {
        true
    }

    proof fn lemma_round_trip(self) {
    }

    proof fn lemma_of_value(v: int) {
    }

    proof fn lemma_fits_wide(v: int) {
    }

    fn checked_add(&self, rhs: &Self) -> (out: Option<Self>) {
        i128::checked_add(*self, *rhs)
    }

    fn checked_sub(&self, rhs: &Self) -> (out: Option<Self>) {
        i128::checked_sub(*self, *rhs)
    }

    fn checked_mul(&self, rhs: &Self) -> (out: Option<Self>) {
        i128::checked_mul(*self, *rhs)
    }

    fn checked_div(&self, rhs: &Self) -> (out: Option<Self>) {
        i128::checked_div(*self, *rhs)
    }

    fn checked_neg(&self) -> (out: Option<Self>) {
        i128::checked_sub(0, *self)
    }

    fn is_negative(&self) -> (out: bool) {
        *self < 0
    }

    fn as_index(&self) -> (out: usize) {
        #[verifier::truncate]
        (*self as usize)
    }

    fn widen(&self) -> (out: i128) {
        *self
    }
}

} // verus!
