//! The element type of a matrix and the vocabulary used to talk about its
//! arithmetic in contracts.
//!
//! Contracts speak of an operator in three ways. `x.add_req(y)` says that
//! `x + y` may be computed at all: for a machine integer, that it does not
//! overflow. `is_sum(x, y, r)` says that `r` is a value that `x + y` gives,
//! and it is known of every result of every element type. `x.add_spec(y)` is
//! the one value of the sum for an element type whose `+` is a function of
//! its operands; `exact` says that all operators of `T` are of that kind.
//! `vstd` states this of the machine integers and leaves it open for
//! floating-point types, whose results it does not promise to be
//! reproducible bit for bit. The other operators are treated alike.

use vstd::prelude::*;
use vstd::std_specs::ops::{AddSpec, SubSpec, MulSpec, DivSpec, NegSpec};
use vstd::std_specs::convert::FromSpec;
use vstd::std_specs::cmp::PartialEqSpec;
use std::ops::{Add, Sub, Mul, Div, Neg};

verus! {

/// What a matrix element must offer: it is copied freely, the small integers
/// -1, 0 and 1 convert into it, and it has the four arithmetic operators,
/// negation and equality.
pub trait Scalar: Copy + From<i8> + PartialEq + Add<Output = Self> + Sub<Output = Self> + Mul<
    Output = Self,
> + Div<Output = Self> + Neg<Output = Self> {

}

impl<T> Scalar for T where
    T: Copy + From<i8> + PartialEq + Add<Output = T> + Sub<Output = T> + Mul<Output = T> + Div<
        Output = T,
    > + Neg<Output = T>,
 {
}

/// Every operator of `T`, and the conversion from `i8`, computes exactly what
/// its specification function says. This holds of `i16`, `i32`, `i64`,
/// `i128` and `isize`.
pub open spec fn exact<T: Scalar>() -> bool {
    &&& T::obeys_from_spec()
    &&& T::obeys_eq_spec()
    &&& T::obeys_add_spec()
    &&& T::obeys_sub_spec()
    &&& T::obeys_mul_spec()
    &&& T::obeys_div_spec()
    &&& T::obeys_neg_spec()
}

/// No operator of `T` can fail, whatever its operands. This is what one
/// assumes of floating-point types, whose arithmetic does not trap.
pub open spec fn total<T: Scalar>() -> bool {
    &&& forall|x: T, y: T| #[trigger] x.add_req(y)
    &&& forall|x: T, y: T| #[trigger] x.sub_req(y)
    &&& forall|x: T, y: T| #[trigger] x.mul_req(y)
    &&& forall|x: T, y: T| #[trigger] x.div_req(y)
    &&& forall|x: T| #[trigger] x.neg_req()
}

/// `r` is a value that `T` gives for the small integer `k`.
pub open spec fn is_constant<T: From<i8>>(k: i8, r: T) -> bool {
    call_ensures(<T as From<i8>>::from, (k,), r)
}

/// `r` is a value that `x + y` gives.
pub open spec fn is_sum<T: Add<Output = T>>(x: T, y: T, r: T) -> bool {
    call_ensures(<T as Add>::add, (x, y), r)
}

/// `r` is a value that `x - y` gives.
pub open spec fn is_difference<T: Sub<Output = T>>(x: T, y: T, r: T) -> bool {
    call_ensures(<T as Sub>::sub, (x, y), r)
}

/// `r` is a value that `x * y` gives.
pub open spec fn is_product<T: Mul<Output = T>>(x: T, y: T, r: T) -> bool {
    call_ensures(<T as Mul>::mul, (x, y), r)
}

/// `r` is a value that `x / y` gives.
pub open spec fn is_quotient<T: Div<Output = T>>(x: T, y: T, r: T) -> bool {
    call_ensures(<T as Div>::div, (x, y), r)
}

/// `r` is a value that `-x` gives.
pub open spec fn is_negation<T: Neg<Output = T>>(x: T, r: T) -> bool {
    call_ensures(<T as Neg>::neg, (x,), r)
}

/// `b` is an answer that `x == y` gives.
pub open spec fn is_equality<T: PartialEq>(x: T, y: T, b: bool) -> bool {
    call_ensures(<T as PartialEq>::eq, (&x, &y), b)
}

/// The small integer whose element is the sign of a cofactor at a position
/// of the given parity.
pub open spec fn sign_of(k: int) -> i8 {
    if k % 2 == 0 {
        1i8
    } else {
        -1i8
    }
}

/// The element that stands for 0.
pub open spec fn zero<T: From<i8>>() -> T {
    T::from_spec(0i8)
}

/// The element that stands for 1.
pub open spec fn one<T: From<i8>>() -> T {
    T::from_spec(1i8)
}

/// The element that stands for -1.
pub open spec fn minus_one<T: From<i8>>() -> T {
    T::from_spec(-1i8)
}

/// The sign of a cofactor: 1 at an even position, -1 at an odd one.
pub open spec fn sign<T: From<i8>>(k: int) -> T {
    if k % 2 == 0 {
        one::<T>()
    } else {
        minus_one::<T>()
    }
}

/// Returns the element that stands for 0.
pub fn make_zero<T: From<i8>>() -> (r: T)
    ensures
        is_constant(0i8, r),
        T::obeys_from_spec() ==> r == zero::<T>(),
{
    T::from(0i8)
}

/// Returns the element that stands for 1.
pub fn make_one<T: From<i8>>() -> (r: T)
    ensures
        is_constant(1i8, r),
        T::obeys_from_spec() ==> r == one::<T>(),
{
    T::from(1i8)
}

/// Returns the sign of a cofactor from the parity of its position.
pub fn make_sign<T: From<i8>>(even: bool) -> (r: T)
    ensures
        is_constant(
            if even {
                1i8
            } else {
                -1i8
            },
            r,
        ),
        T::obeys_from_spec() ==> r == (if even {
            one::<T>()
        } else {
            minus_one::<T>()
        }),
{
    if even {
        T::from(1i8)
    } else {
        T::from(-1i8)
    }
}

} // verus!
