//! Vectors of two components.

use super::algebra::norm_spec;
use super::algebra::obeys_norm_spec;
use super::algebra::total_add;
use super::algebra::total_div;
use super::algebra::total_sub;
use super::algebra::Norm;
use std::ops::Add;
use std::ops::Div;
use std::ops::Mul;
use std::ops::Sub;
use vstd::prelude::*;
use vstd::std_specs::cmp::PartialEqSpec;
use vstd::std_specs::ops::AddSpec;
use vstd::std_specs::ops::DivSpec;
use vstd::std_specs::ops::MulSpec;
use vstd::std_specs::ops::SubSpec;

verus! {

/// A 2D vector representation.
pub struct Vector2d<T> {
    pub x: T,
    pub y: T,
}

impl<T: Copy> Vector2d<T> {
    /// The length of the vector: the norm of its two components.
    pub open spec fn len_spec<D>(self) -> D where T: Norm<Output = D> {
        norm_spec::<T>(seq![self.x, self.y])
    }

    /// The vector divided, component by component, by its own length.
    pub open spec fn normal_spec(self) -> Vector2d<T> where T: Norm<Output = T> + Div<Output = T> {
        let l = self.len_spec::<T>();
        Vector2d { x: self.x.div_spec(l), y: self.y.div_spec(l) }
    }

    /// The scalar product: the sum of the products of the components.
    pub open spec fn scalar_spec(self, other: Self) -> T where
        T: Mul<Output = T> + Add<Output = T>,
     {
        self.x.mul_spec(other.x).add_spec(self.y.mul_spec(other.y))
    }

    /// Whether the number type allows every step of `scalar` on these two
    /// vectors. Where its multiplication follows its specification the
    /// operands of the sum are known; where it does not, addition has to
    /// be allowed on all values.
    pub open spec fn scalar_req(self, other: Self) -> bool where
        T: Mul<Output = T> + Add<Output = T>,
     {
        &&& self.x.mul_req(other.x)
        &&& self.y.mul_req(other.y)
        &&& if T::obeys_mul_spec() {
            self.x.mul_spec(other.x).add_req(self.y.mul_spec(other.y))
        } else {
            total_add::<T>()
        }
    }

    /// Whether the number type allows the two divisions of `normal` on
    /// this vector. Where its norm is a function the divisor is known;
    /// where it is not, division has to be allowed on all values.
    pub open spec fn normal_req(self) -> bool where T: Norm<Output = T> + Div<Output = T> {
        if obeys_norm_spec::<T>() {
            &&& self.x.div_req(self.len_spec::<T>())
            &&& self.y.div_req(self.len_spec::<T>())
        } else {
            total_div::<T>()
        }
    }

    pub fn new(x: T, y: T) -> (v: Vector2d<T>)
        ensures
            v == (Vector2d { x, y }),
    {
        Vector2d { x: x, y: y }
    }

    /// The vector of length one that points the way of `(x, y)`.
    pub fn unit(x: T, y: T) -> (unit: Vector2d<T>) where
        T: Copy + Norm<Output = T> + Div<Output = T>,

        requires
            (Vector2d { x, y }).normal_req(),
        ensures
            obeys_norm_spec::<T>() && T::obeys_div_spec() ==> unit == (Vector2d {
                x,
                y,
            }).normal_spec(),
    {
        let v = Vector2d::new(x, y);
        v.normal()
    }

    pub fn len<D>(&self) -> (length: D) where T: Norm<Output = D>
        ensures
            obeys_norm_spec::<T>() ==> length == self.len_spec::<D>(),
    {
        let components = [self.x, self.y];
        assert(components@ =~= seq![self.x, self.y]);
        T::norm(&components)
    }

    pub fn normal(&self) -> (unit: Vector2d<T>) where T: Copy + Norm<Output = T> + Div<Output = T>
        requires
            self.normal_req(),
        ensures
            obeys_norm_spec::<T>() && T::obeys_div_spec() ==> unit == self.normal_spec(),
    {
        let l = self.len();
        Vector2d { x: self.x / l, y: self.y / l }
    }

    pub fn scalar(self, other: Self) -> (sum: T) where T: Mul<Output = T> + Add<Output = T>
        requires
            self.scalar_req(other),
        ensures
            T::obeys_mul_spec() && T::obeys_add_spec() ==> sum == self.scalar_spec(other),
    {
        self.x * other.x + self.y * other.y
    }
}

impl<T: Copy> Clone for Vector2d<T> {
    fn clone(&self) -> (copy: Vector2d<T>)
        ensures
            copy == *self,
    {
        Vector2d { x: self.x, y: self.y }
    }
}

impl<T: Copy> Copy for Vector2d<T> {

}

impl<T: Copy + PartialEq> PartialEq for Vector2d<T> {
    fn eq(&self, other: &Vector2d<T>) -> (equal: bool) {
        let x = self.x;
        let y = self.y;
        let other_x = other.x;
        let other_y = other.y;
        x == other_x && y == other_y
    }
}

impl<T: Copy + PartialEq> vstd::std_specs::cmp::PartialEqSpecImpl for Vector2d<T> {
    open spec fn obeys_eq_spec() -> bool {
        T::obeys_eq_spec()
    }

    open spec fn eq_spec(&self, other: &Vector2d<T>) -> bool {
        self.x.eq_spec(&other.x) && self.y.eq_spec(&other.y)
    }
}

impl<F: Sub, T: Mul<Output = F>> Mul for Vector2d<T> {
    type Output = F::Output;

    /// The cross product of two vectors of the plane: a number.
    fn mul(self, other: Self) -> (product: F::Output) {
        self.x * other.y - self.y * other.x
    }
}

impl<F: Sub, T: Mul<Output = F>> vstd::std_specs::ops::MulSpecImpl for Vector2d<T> {
    open spec fn obeys_mul_spec() -> bool {
        T::obeys_mul_spec() && F::obeys_sub_spec()
    }

    open spec fn mul_req(self, other: Self) -> bool {
        &&& self.x.mul_req(other.y)
        &&& self.y.mul_req(other.x)
        &&& if T::obeys_mul_spec() {
            self.x.mul_spec(other.y).sub_req(self.y.mul_spec(other.x))
        } else {
            total_sub::<F>()
        }
    }

    open spec fn mul_spec(self, other: Self) -> F::Output {
        self.x.mul_spec(other.y).sub_spec(self.y.mul_spec(other.x))
    }
}

} // verus!
