//! What a number type has to offer before vectors can be built from it.
//!
//! Nothing is asked of an implementation beyond the methods themselves.
//! For each method a specification function names what it returns, and a
//! predicate says that the method is a function of its arguments; what a
//! generic function computes is stated for number types of which the
//! predicate holds.

use std::ops::Add;
use std::ops::Div;
use std::ops::Mul;
use std::ops::Sub;
use vstd::prelude::*;
use vstd::std_specs::ops::AddSpec;
use vstd::std_specs::ops::DivSpec;
use vstd::std_specs::ops::MulSpec;
use vstd::std_specs::ops::SubSpec;

verus! {

/// Addition may be applied to any two values of the type.
pub open spec fn total_add<T: Add>() -> bool {
    forall|a: T, b: T| #[trigger] a.add_req(b)
}

/// Subtraction may be applied to any two values of the type.
pub open spec fn total_sub<T: Sub>() -> bool {
    forall|a: T, b: T| #[trigger] a.sub_req(b)
}

/// Multiplication may be applied to any two values of the type.
pub open spec fn total_mul<T: Mul>() -> bool {
    forall|a: T, b: T| #[trigger] a.mul_req(b)
}

/// Division may be applied to any two values of the type.
pub open spec fn total_div<T: Div>() -> bool {
    forall|a: T, b: T| #[trigger] a.div_req(b)
}

/// Whether the four operations of the number type follow their
/// specification functions.
pub open spec fn obeys_arithmetic<T>() -> bool where
    T: Add<Output = T> + Sub<Output = T> + Mul<Output = T> + Div<Output = T>,
 {
    T::obeys_add_spec() && T::obeys_sub_spec() && T::obeys_mul_spec() && T::obeys_div_spec()
}

/// Whether what the midpoint of two positions is made of follows its
/// specification: addition, division and the norm.
pub open spec fn obeys_midpoint_spec<T>() -> bool where
    T: Norm<Output = T> + Add<Output = T> + Div<Output = T>,
 {
    T::obeys_add_spec() && T::obeys_div_spec() && obeys_norm_spec::<T>()
}

/// A type with a multiplicative unit.
pub trait One: Sized {
    const ONE: Self;
}

/// The Euclidean norm of a vector given by its components.
pub trait Norm: Sized {
    type Output;

    fn norm(vector: &[Self]) -> Self::Output;
}

/// Type on which the trigonometric operations are defined.
pub trait Trigonometric: Sized {
    type Output;

    fn sin(&self) -> Self::Output;

    fn cos(&self) -> Self::Output;

    fn tan(&self) -> Self::Output;

    fn asin(x: Self::Output) -> Self;

    fn acos(x: Self::Output) -> Self;

    fn atan(x: Self::Output) -> Self;
}

/// Whether `T::norm` may return `length` for a vector with these
/// components.
pub open spec fn norm_returns<T: Norm>(vector: Seq<T>, length: T::Output) -> bool {
    exists|v: &[T]| v@ == vector && #[trigger] call_ensures(T::norm, (v,), length)
}

/// The norm of a vector with these components: a value that `T::norm`
/// may return for them.
pub open spec fn norm_spec<T: Norm>(vector: Seq<T>) -> T::Output {
    choose|length: T::Output| norm_returns::<T>(vector, length)
}

/// Whether the norm of the number type is a function of the components:
/// whatever `T::norm` returns for a vector is `norm_spec` of it.
pub open spec fn obeys_norm_spec<T: Norm>() -> bool {
    forall|v: &[T], length: T::Output| #[trigger]
        call_ensures(T::norm, (v,), length) ==> length == norm_spec::<T>(v@)
}

/// The sine of an angle: a value that `T::sin` may return for it.
pub open spec fn sin_spec<T: Trigonometric>(angle: T) -> T::Output {
    choose|value: T::Output| call_ensures(T::sin, (&angle,), value)
}

/// The cosine of an angle: a value that `T::cos` may return for it.
pub open spec fn cos_spec<T: Trigonometric>(angle: T) -> T::Output {
    choose|value: T::Output| call_ensures(T::cos, (&angle,), value)
}

/// The tangent of an angle: a value that `T::tan` may return for it.
pub open spec fn tan_spec<T: Trigonometric>(angle: T) -> T::Output {
    choose|value: T::Output| call_ensures(T::tan, (&angle,), value)
}

/// The arc sine of a number: an angle that `T::asin` may return for it.
pub open spec fn asin_spec<T: Trigonometric>(x: T::Output) -> T {
    choose|angle: T| call_ensures(T::asin, (x,), angle)
}

/// The arc cosine of a number: an angle that `T::acos` may return for it.
pub open spec fn acos_spec<T: Trigonometric>(x: T::Output) -> T {
    choose|angle: T| call_ensures(T::acos, (x,), angle)
}

/// The arc tangent of a number: an angle that `T::atan` may return for it.
pub open spec fn atan_spec<T: Trigonometric>(x: T::Output) -> T {
    choose|angle: T| call_ensures(T::atan, (x,), angle)
}

/// Whether the six trigonometric operations of the type are functions:
/// whatever one of them returns is what its specification function names.
pub open spec fn obeys_trigonometric_spec<T: Trigonometric>() -> bool {
    &&& forall|angle: T, value: T::Output| #[trigger]
        call_ensures(T::sin, (&angle,), value) ==> value == sin_spec(angle)
    &&& forall|angle: T, value: T::Output| #[trigger]
        call_ensures(T::cos, (&angle,), value) ==> value == cos_spec(angle)
    &&& forall|angle: T, value: T::Output| #[trigger]
        call_ensures(T::tan, (&angle,), value) ==> value == tan_spec(angle)
    &&& forall|x: T::Output, angle: T| #[trigger]
        call_ensures(T::asin, (x,), angle) ==> angle == asin_spec::<T>(x)
    &&& forall|x: T::Output, angle: T| #[trigger]
        call_ensures(T::acos, (x,), angle) ==> angle == acos_spec::<T>(x)
    &&& forall|x: T::Output, angle: T| #[trigger]
        call_ensures(T::atan, (x,), angle) ==> angle == atan_spec::<T>(x)
}

} // verus!
