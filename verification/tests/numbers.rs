use deuterostome::error::Error;
use deuterostome::numeric::float::{Float, FloatUnit};
use deuterostome::numeric::caster::{Floating, Fractional};
use deuterostome::numeric::ops::{settled, CastFromFloat, DyadicKernel, MonadicKernel};
use deuterostome::numeric::ops_defs::{AddOp, CosOp, DivOp, MulOp, NegOp, SubOp};
use deuterostome::numeric::primitive::NumericPrimitive;
use deuterostome::numeric::{CastFrom128, Number, NumericValue};
use deuterostome::types::num::Num;
use deuterostome::vm::naryops::{from_num, to_index};

struct Ieee;

fn checked(value: f64) -> Option<Float> {
    if value.is_finite() {
        Some(Float { bits: value.to_bits() })
    } else {
        None
    }
}

impl FloatUnit for Ieee {
    fn add(&self, lhs: Float, rhs: Float) -> Option<Float> {
        checked(f64::from_bits(lhs.bits) + f64::from_bits(rhs.bits))
    }

    fn sub(&self, lhs: Float, rhs: Float) -> Option<Float> {
        checked(f64::from_bits(lhs.bits) - f64::from_bits(rhs.bits))
    }

    fn mul(&self, lhs: Float, rhs: Float) -> Option<Float> {
        checked(f64::from_bits(lhs.bits) * f64::from_bits(rhs.bits))
    }

    fn div(&self, lhs: Float, rhs: Float) -> Option<Float> {
        checked(f64::from_bits(lhs.bits) / f64::from_bits(rhs.bits))
    }

    fn neg(&self, value: Float) -> Option<Float> {
        Some(Float { bits: (-f64::from_bits(value.bits)).to_bits() })
    }

    fn cos(&self, value: Float) -> Option<Float> {
        Some(Float { bits: f64::from_bits(value.bits).cos().to_bits() })
    }

    fn from_int(&self, value: i64) -> Float {
        Float { bits: (value as f64).to_bits() }
    }

    fn from_usize(&self, value: usize) -> Float {
        Float { bits: (value as f64).to_bits() }
    }

    fn to_int(&self, value: Float) -> Option<i64> {
        let f = f64::from_bits(value.bits);
        if !f.is_finite() || f > i64::MAX as f64 || f < i64::MIN as f64 {
            None
        } else {
            Some(f.round() as i64)
        }
    }

    fn to_usize(&self, value: Float) -> Option<usize> {
        let f = f64::from_bits(value.bits);
        if !f.is_finite() || f > usize::MAX as f64 || f < usize::MIN as f64 {
            None
        } else {
            Some(f.round() as usize)
        }
    }

    fn parse(&self, text: &str) -> Option<Float> {
        match text.parse::<f64>() {
            Ok(value) => Some(Float { bits: value.to_bits() }),
            Err(_) => None,
        }
    }

    fn show(&self, value: Float) -> String {
        format!("{}", f64::from_bits(value.bits))
    }
}

fn sint(v: i64) -> Num {
    Num::Int(Number::Scalar(NumericValue::Value(v)))
}

fn uns(v: usize) -> Num {
    Num::USize(Number::Scalar(NumericValue::Value(v)))
}

fn flt(v: f64) -> Num {
    Num::Float(Number::Scalar(NumericValue::Value(Float { bits: v.to_bits() })))
}

fn ints(v: &[Option<i64>]) -> Num {
    Num::Int(Number::Array(
        v.iter()
            .map(|x| match x {
                Some(x) => NumericValue::Value(*x),
                None => NumericValue::NaN,
            })
            .collect(),
    ))
}

fn unss(v: &[Option<usize>]) -> Num {
    Num::USize(Number::Array(
        v.iter()
            .map(|x| match x {
                Some(x) => NumericValue::Value(*x),
                None => NumericValue::NaN,
            })
            .collect(),
    ))
}

fn flts(v: &[Option<f64>]) -> Num {
    Num::Float(Number::Array(
        v.iter()
            .map(|x| match x {
                Some(x) => NumericValue::Value(Float { bits: x.to_bits() }),
                None => NumericValue::NaN,
            })
            .collect(),
    ))
}

#[test]
fn values_know_nan() {
    assert!(NumericValue::<i64>::NaN.is_nan());
    assert!(!NumericValue::Value(0i64).is_nan());
    assert_eq!(NumericValue::from_primitive(7usize), NumericValue::Value(7usize));
    assert_eq!(NumericValue::Value(-7i64).to_primitive(), -7);
}

#[test]
fn values_convert_between_kinds() {
    assert_eq!(NumericValue::Value(7i64).to_value::<usize>(), NumericValue::Value(7usize));
    assert_eq!(NumericValue::Value(-7i64).to_value::<usize>(), NumericValue::NaN);
    assert_eq!(NumericValue::Value(usize::MAX).to_value::<i64>(), NumericValue::NaN);
    assert_eq!(NumericValue::Value(9usize).to_value::<i64>(), NumericValue::Value(9i64));
    assert_eq!(NumericValue::<i64>::NaN.to_value::<usize>(), NumericValue::NaN);
}

#[test]
fn wide_results_are_cast_back() {
    assert_eq!(<i64 as CastFrom128>::cast(5), Some(5));
    assert_eq!(<i64 as CastFrom128>::cast(i64::MAX as i128 + 1), None);
    assert_eq!(<i64 as CastFrom128>::cast(i64::MIN as i128 - 1), None);
    assert_eq!(<i64 as CastFrom128>::cast(i64::MIN as i128), Some(i64::MIN));
    assert_eq!(<usize as CastFrom128>::cast(-1), None);
    assert_eq!(<usize as CastFrom128>::cast(usize::MAX as i128), Some(usize::MAX));
    assert_eq!(<usize as CastFrom128>::cast(usize::MAX as i128 + 1), None);
}

#[test]
fn primitives_check_their_arithmetic() {
    assert_eq!(NumericPrimitive::checked_add(&i64::MAX, &1), None);
    assert_eq!(NumericPrimitive::checked_add(&3i64, &4), Some(7));
    assert_eq!(NumericPrimitive::checked_sub(&3usize, &4), None);
    assert_eq!(NumericPrimitive::checked_sub(&i64::MIN, &1), None);
    assert_eq!(NumericPrimitive::checked_mul(&(1i64 << 62), &2), None);
    assert_eq!(NumericPrimitive::checked_mul(&-3i64, &4), Some(-12));
    assert_eq!(NumericPrimitive::checked_div(&-7i64, &2), Some(-3));
    assert_eq!(NumericPrimitive::checked_div(&7i64, &-2), Some(-3));
    assert_eq!(NumericPrimitive::checked_div(&-7i64, &-2), Some(3));
    assert_eq!(NumericPrimitive::checked_div(&7i64, &0), None);
    assert_eq!(NumericPrimitive::checked_div(&i64::MIN, &-1), None);
    assert_eq!(NumericPrimitive::checked_div(&7usize, &2), Some(3));
    assert_eq!(NumericPrimitive::checked_neg(&5i64), Some(-5));
    assert_eq!(NumericPrimitive::checked_neg(&i64::MIN), None);
    assert_eq!(NumericPrimitive::checked_neg(&0usize), None);
    assert_eq!(NumericPrimitive::checked_neg(&i128::MIN), None);
    assert_eq!(NumericPrimitive::widen(&-5i64), -5i128);
    assert_eq!(NumericPrimitive::as_index(&5i64), 5usize);
    assert!(NumericPrimitive::is_negative(&-5i64));
    assert!(!NumericPrimitive::is_negative(&5usize));
}

#[test]
fn scalar_with_scalar_is_a_scalar() {
    assert_eq!(sint(3).add(sint(4), &Ieee), Ok(sint(7)));
    assert_eq!(sint(3).sub(sint(4), &Ieee), Ok(sint(-1)));
    assert_eq!(sint(3).mul(sint(4), &Ieee), Ok(sint(12)));
    assert_eq!(sint(13).div(sint(4), &Ieee), Ok(sint(3)));
    assert_eq!(sint(-13).div(sint(4), &Ieee), Ok(sint(-3)));
    assert_eq!(uns(3).add(uns(4), &Ieee), Ok(uns(7)));
}

#[test]
fn array_with_array_is_an_array() {
    assert_eq!(
        ints(&[Some(1), Some(2), None]).add(ints(&[Some(10), None, Some(30)]), &Ieee),
        Ok(ints(&[Some(11), None, None]))
    );
    assert_eq!(ints(&[]).mul(ints(&[]), &Ieee), Ok(ints(&[])));
}

#[test]
fn arrays_of_different_lengths_mismatch() {
    assert_eq!(
        ints(&[Some(1), Some(2)]).add(ints(&[Some(1)]), &Ieee),
        Err(Error::LengthMismatch)
    );
    assert_eq!(
        ints(&[Some(1)]).sub(flts(&[Some(1.0), Some(2.0)]), &Ieee),
        Err(Error::LengthMismatch)
    );
    assert_eq!(flts(&[]).div(unss(&[Some(1)]), &Ieee), Err(Error::LengthMismatch));
}

#[test]
fn array_with_scalar_is_an_array() {
    assert_eq!(
        ints(&[Some(1), None, Some(3)]).mul(sint(10), &Ieee),
        Ok(ints(&[Some(10), None, Some(30)]))
    );
    assert_eq!(
        ints(&[Some(1), Some(2)]).add(Num::Int(Number::Scalar(NumericValue::NaN)), &Ieee),
        Ok(ints(&[None, None]))
    );
}

#[test]
fn scalar_with_array_folds_from_the_left() {
    assert_eq!(sint(100).sub(ints(&[Some(1), Some(2), Some(3)]), &Ieee), Ok(sint(94)));
    assert_eq!(sint(64).div(ints(&[Some(2), Some(4)]), &Ieee), Ok(sint(8)));
    assert_eq!(sint(7).div(ints(&[Some(2), Some(2)]), &Ieee), Ok(sint(1)));
    assert_eq!(sint(5).add(ints(&[]), &Ieee), Ok(sint(5)));
    assert_eq!(
        sint(5).add(ints(&[Some(1), None, Some(2)]), &Ieee),
        Ok(Num::Int(Number::Scalar(NumericValue::NaN)))
    );
}

#[test]
fn nan_operands_give_nan() {
    let nan = Num::Int(Number::Scalar(NumericValue::NaN));
    assert_eq!(nan.clone().add(sint(1), &Ieee), Ok(nan.clone()));
    assert_eq!(sint(1).add(nan.clone(), &Ieee), Ok(nan.clone()));
    assert_eq!(nan.clone().neg(&Ieee), Ok(nan.clone()));
    assert_eq!(nan.clone().cos(&Ieee), Ok(nan.clone()));
    let fnan = Num::Float(Number::Scalar(NumericValue::NaN));
    assert_eq!(fnan.clone().mul(flt(2.0), &Ieee), Ok(fnan.clone()));
    assert_eq!(flt(2.0).mul(fnan.clone(), &Ieee), Ok(fnan.clone()));
    assert_eq!(sint(2).mul(fnan, &Ieee), Ok(nan));
}

#[test]
fn overflow_gives_nan_of_the_left_kind() {
    let nan = Num::Int(Number::Scalar(NumericValue::NaN));
    let unan = Num::USize(Number::Scalar(NumericValue::NaN));
    assert_eq!(sint(i64::MAX).add(sint(1), &Ieee), Ok(nan.clone()));
    assert_eq!(sint(i64::MIN).sub(sint(1), &Ieee), Ok(nan.clone()));
    assert_eq!(sint(i64::MAX).mul(sint(2), &Ieee), Ok(nan.clone()));
    assert_eq!(sint(i64::MIN).div(sint(-1), &Ieee), Ok(nan.clone()));
    assert_eq!(sint(i64::MIN).neg(&Ieee), Ok(nan.clone()));
    assert_eq!(uns(0).sub(uns(1), &Ieee), Ok(unan.clone()));
    assert_eq!(uns(usize::MAX).add(uns(1), &Ieee), Ok(unan.clone()));
    assert_eq!(uns(5).neg(&Ieee), Ok(unan.clone()));
    assert_eq!(uns(0).neg(&Ieee), Ok(unan));
}

#[test]
fn division_by_zero_gives_nan() {
    let nan = Num::Int(Number::Scalar(NumericValue::NaN));
    assert_eq!(sint(1).div(sint(0), &Ieee), Ok(nan.clone()));
    assert_eq!(sint(0).div(sint(0), &Ieee), Ok(nan.clone()));
    assert_eq!(sint(1).div(uns(0), &Ieee), Ok(nan.clone()));
    assert_eq!(sint(1).div(flt(0.0), &Ieee), Ok(nan));
    assert_eq!(uns(1).div(uns(0), &Ieee), Ok(Num::USize(Number::Scalar(NumericValue::NaN))));
    assert_eq!(flt(1.0).div(flt(0.0), &Ieee), Ok(Num::Float(Number::Scalar(NumericValue::NaN))));
}

#[test]
fn mixed_integers_meet_in_the_wide_kind() {
    assert_eq!(sint(-5).add(uns(3), &Ieee), Ok(sint(-2)));
    assert_eq!(uns(3).add(sint(-5), &Ieee), Ok(Num::USize(Number::Scalar(NumericValue::NaN))));
    assert_eq!(uns(5).add(sint(-3), &Ieee), Ok(uns(2)));
    assert_eq!(uns(5).mul(sint(-1), &Ieee), Ok(Num::USize(Number::Scalar(NumericValue::NaN))));
    assert_eq!(sint(i64::MIN).add(uns(usize::MAX), &Ieee), {
        let sum = i64::MIN as i128 + usize::MAX as i128;
        if sum <= i64::MAX as i128 {
            Ok(sint(sum as i64))
        } else {
            Ok(Num::Int(Number::Scalar(NumericValue::NaN)))
        }
    });
    assert_eq!(sint(1).sub(uns(usize::MAX), &Ieee), {
        let difference = 1 - usize::MAX as i128;
        if difference >= i64::MIN as i128 {
            Ok(sint(difference as i64))
        } else {
            Ok(Num::Int(Number::Scalar(NumericValue::NaN)))
        }
    });
    assert_eq!(sint(i64::MAX).mul(uns(2), &Ieee), Ok(Num::Int(Number::Scalar(NumericValue::NaN))));
    assert_eq!(uns(7).div(sint(2), &Ieee), Ok(uns(3)));
    assert_eq!(uns(7).div(sint(-2), &Ieee), Ok(Num::USize(Number::Scalar(NumericValue::NaN))));
    assert_eq!(uns(0).div(sint(-2), &Ieee), Ok(uns(0)));
}

#[test]
fn floats_keep_the_left_kind() {
    assert_eq!(sint(3).add(flt(1.4), &Ieee), Ok(sint(4)));
    assert_eq!(sint(3).add(flt(1.6), &Ieee), Ok(sint(5)));
    assert_eq!(uns(3).sub(flt(4.0), &Ieee), Ok(Num::USize(Number::Scalar(NumericValue::NaN))));
    assert_eq!(flt(1.5).add(sint(2), &Ieee), Ok(flt(3.5)));
    assert_eq!(flt(1.5).mul(uns(2), &Ieee), Ok(flt(3.0)));
    assert_eq!(flt(1.5).sub(flt(0.25), &Ieee), Ok(flt(1.25)));
    assert_eq!(flt(f64::MAX).mul(flt(2.0), &Ieee), Ok(Num::Float(Number::Scalar(NumericValue::NaN))));
    assert_eq!(sint(1).mul(flt(1e300), &Ieee), Ok(Num::Int(Number::Scalar(NumericValue::NaN))));
    assert_eq!(
        flts(&[Some(1.0), None]).add(ints(&[Some(1), Some(2)]), &Ieee),
        Ok(flts(&[Some(2.0), None]))
    );
    assert_eq!(flt(1.0).add(flts(&[Some(1.0), Some(2.5)]), &Ieee), Ok(flt(4.5)));
}

#[test]
fn monadic_operators_keep_kind_and_cardinality() {
    assert_eq!(sint(5).neg(&Ieee), Ok(sint(-5)));
    assert_eq!(flt(1.5).neg(&Ieee), Ok(flt(-1.5)));
    assert_eq!(
        ints(&[Some(1), None, Some(-3)]).neg(&Ieee),
        Ok(ints(&[Some(-1), None, Some(3)]))
    );
    assert_eq!(unss(&[Some(1), None]).neg(&Ieee), Ok(unss(&[None, None])));
    assert_eq!(sint(0).cos(&Ieee), Ok(sint(1)));
    assert_eq!(uns(0).cos(&Ieee), Ok(uns(1)));
    assert_eq!(flt(0.0).cos(&Ieee), Ok(flt(1.0)));
    assert_eq!(ints(&[Some(0), None]).cos(&Ieee), Ok(ints(&[Some(1), None])));
    assert_eq!(sint(3).cos(&Ieee), Ok(sint(-1)));
}

#[test]
fn operators_apply_by_type() {
    assert_eq!(sint(3).apply_dyadic::<AddOp, Ieee>(sint(4), &Ieee), Ok(sint(7)));
    assert_eq!(sint(3).apply_dyadic::<SubOp, Ieee>(sint(4), &Ieee), Ok(sint(-1)));
    assert_eq!(sint(3).apply_dyadic::<MulOp, Ieee>(sint(4), &Ieee), Ok(sint(12)));
    assert_eq!(sint(12).apply_dyadic::<DivOp, Ieee>(sint(4), &Ieee), Ok(sint(3)));
    assert_eq!(sint(3).apply_monadic::<NegOp, Ieee>(&Ieee), Ok(sint(-3)));
    assert_eq!(sint(3).cardinality(), None);
    assert_eq!(ints(&[None, None]).cardinality(), Some(2));
    assert_eq!(ints(&[Some(1)]).copy(), ints(&[Some(1)]));
}

#[test]
fn offsets_come_from_integer_scalars() {
    assert_eq!(to_index(NumericValue::Value(5i64)), Ok(5));
    assert_eq!(to_index(NumericValue::Value(5usize)), Ok(5));
    assert_eq!(to_index(NumericValue::Value(0i64)), Ok(0));
    assert_eq!(to_index(NumericValue::Value(-1i64)), Err(Error::IllNeg));
    assert_eq!(to_index(NumericValue::<i64>::NaN), Err(Error::IllNan));
    assert_eq!(to_index(NumericValue::<usize>::NaN), Err(Error::IllNan));
    assert_eq!(from_num(sint(7)), Ok(7));
    assert_eq!(from_num(uns(7)), Ok(7));
    assert_eq!(from_num(sint(-7)), Err(Error::IllNeg));
    assert_eq!(from_num(flt(7.0)), Err(Error::OpType));
    assert_eq!(from_num(ints(&[Some(7)])), Err(Error::OpType));
}

#[test]
fn outcomes_of_the_float_unit_become_values() {
    assert_eq!(settled(Some(5i64)), NumericValue::Value(5));
    assert_eq!(settled::<usize>(None), NumericValue::NaN);
}

#[test]
fn floats_are_floats_as_they_are() {
    let f = Float { bits: 2.5f64.to_bits() };
    assert_eq!(<Float as CastFromFloat>::cast(&Ieee, f), Some(f));
    assert_eq!(f.as_float(&Ieee), f);
    assert_eq!(7i64.as_float(&Ieee), Float { bits: 7.0f64.to_bits() });
    assert_eq!(7usize.as_float(&Ieee), Float { bits: 7.0f64.to_bits() });
    assert_eq!(<i64 as CastFromFloat>::cast(&Ieee, f), Some(3));
    assert_eq!(<usize as CastFromFloat>::cast(&Ieee, Float { bits: (-1.0f64).to_bits() }), None);
}

#[test]
fn float_kernels_compute_by_the_unit_they_were_made_with() {
    let add = Floating::<AddOp, Ieee>::new(&Ieee);
    let two = Float { bits: 2.0f64.to_bits() };
    assert_eq!(
        DyadicKernel::<Float, i64>::run(&add, two, 3),
        Ok(NumericValue::Value(Float { bits: 5.0f64.to_bits() }))
    );
    assert_eq!(DyadicKernel::<i64, Float>::run(&add, 3, two), Ok(NumericValue::Value(5)));
    let div = Floating::<DivOp, Ieee>::new(&Ieee);
    assert_eq!(
        DyadicKernel::<Float, Float>::run(&div, two, Float { bits: 0.0f64.to_bits() }),
        Ok(NumericValue::NaN)
    );
    let cos = Fractional::<CosOp, Ieee>::new(&Ieee);
    assert_eq!(
        MonadicKernel::<Float>::run(&cos, Float { bits: 0.0f64.to_bits() }),
        Ok(NumericValue::Value(Float { bits: 1.0f64.to_bits() }))
    );
}
