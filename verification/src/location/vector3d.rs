//! Vectors of three components.

use super::algebra::norm_spec;
use super::algebra::obeys_norm_spec;
use super::algebra::total_add;
use super::algebra::total_div;
use super::algebra::total_sub;
use super::algebra::Norm;
use std::ops::Add;
use std::ops::Div;
use std::ops::Mul;
use std::ops::Sub;
use vstd::prelude::*;
use vstd::std_specs::cmp::PartialEqSpec;
use vstd::std_specs::ops::AddSpec;
use vstd::std_specs::ops::DivSpec;
use vstd::std_specs::ops::MulSpec;
use vstd::std_specs::ops::SubSpec;

verus! {

/// A 3D vector representation.
#[derive(Debug)]
pub struct Vector3d<T> {
    pub x: T,
    pub y: T,
    pub z: T,
}

impl<T: Copy> Vector3d<T> {
    pub fn new(x: T, y: T, z: T) -> (v: Vector3d<T>)
        ensures
            v == (Vector3d { x, y, z }),
    {
        Vector3d { x: x, y: y, z: z }
    }

    /// The length of the vector: the norm of its three components.
    pub open spec fn len_spec<D>(self) -> D where T: Norm<Output = D> {
        norm_spec::<T>(seq![self.x, self.y, self.z])
    }

    /// The vector divided, component by component, by its own length.
    pub open spec fn normal_spec(self) -> Vector3d<T> where
        T: Norm<Output = T> + Div<Output = T>,
     {
        let l = self.len_spec::<T>();
        Vector3d { x: self.x.div_spec(l), y: self.y.div_spec(l), z: self.z.div_spec(l) }
    }

    /// What `scalar` adds up: the products of the first two components,
    /// then both third components.
    pub open spec fn scalar_spec(self, other: Self) -> T where
        T: Mul<Output = T> + Add<Output = T>,
     {
        self.x.mul_spec(other.x).add_spec(self.y.mul_spec(other.y)).add_spec(self.z).add_spec(
            other.z,
        )
    }

    /// Whether the number type allows every step of `scalar` on these two
    /// vectors. Where the type's arithmetic follows its specification the
    /// operands of each step are known; where it does not, addition has to
    /// be allowed on all values.
    pub open spec fn scalar_req(self, other: Self) -> bool where
        T: Mul<Output = T> + Add<Output = T>,
     {
        let first = self.x.mul_spec(other.x);
        let second = self.y.mul_spec(other.y);
        &&& self.x.mul_req(other.x)
        &&& self.y.mul_req(other.y)
        &&& if T::obeys_mul_spec() && T::obeys_add_spec() {
            &&& first.add_req(second)
            &&& first.add_spec(second).add_req(self.z)
            &&& first.add_spec(second).add_spec(self.z).add_req(other.z)
        } else {
            total_add::<T>()
        }
    }

    /// Whether the number type allows the three divisions of `normal` on
    /// this vector. Where its norm is a function the divisor is known;
    /// where it is not, division has to be allowed on all values.
    pub open spec fn normal_req(self) -> bool where T: Norm<Output = T> + Div<Output = T> {
        if obeys_norm_spec::<T>() {
            &&& self.x.div_req(self.len_spec::<T>())
            &&& self.y.div_req(self.len_spec::<T>())
            &&& self.z.div_req(self.len_spec::<T>())
        } else {
            total_div::<T>()
        }
    }

    pub fn normal(&self) -> (unit: Vector3d<T>) where T: Copy + Norm<Output = T> + Div<Output = T>
        requires
            self.normal_req(),
        ensures
            obeys_norm_spec::<T>() && T::obeys_div_spec() ==> unit == self.normal_spec(),
    {
        let l = self.len();
        Vector3d { x: self.x / l, y: self.y / l, z: self.z / l }
    }

    pub fn len<D>(&self) -> (length: D) where T: Norm<Output = D>
        ensures
            obeys_norm_spec::<T>() ==> length == self.len_spec::<D>(),
    {
        let components = [self.x, self.y, self.z];
        assert(components@ =~= seq![self.x, self.y, self.z]);
        T::norm(&components)
    }

    pub fn scalar(self, other: Self) -> (sum: T) where T: Mul<Output = T> + Add<Output = T>
        requires
            self.scalar_req(other),
        ensures
            T::obeys_mul_spec() && T::obeys_add_spec() ==> sum == self.scalar_spec(other),
    {
        self.x * other.x + self.y * other.y + self.z + other.z
    }
}

impl<T: Copy> Clone for Vector3d<T> {
    fn clone(&self) -> (copy: Vector3d<T>)
        ensures
            copy == *self,
    {
        Vector3d { x: self.x, y: self.y, z: self.z }
    }
}

impl<T: Copy> Copy for Vector3d<T> {

}

impl<T: Copy + PartialEq> PartialEq for Vector3d<T> {
    fn eq(&self, other: &Vector3d<T>) -> (equal: bool) {
        let x = self.x;
        let y = self.y;
        let z = self.z;
        let other_x = other.x;
        let other_y = other.y;
        let other_z = other.z;
        x == other_x && y == other_y && z == other_z
    }
}

impl<T: Copy + PartialEq> vstd::std_specs::cmp::PartialEqSpecImpl for Vector3d<T> {
    open spec fn obeys_eq_spec() -> bool {
        T::obeys_eq_spec()
    }

    open spec fn eq_spec(&self, other: &Vector3d<T>) -> bool {
        self.x.eq_spec(&other.x) && self.y.eq_spec(&other.y) && self.z.eq_spec(&other.z)
    }
}

impl<T: Copy + Default> Default for Vector3d<T> {
    fn default() -> (v: Vector3d<T>)
        ensures
            call_ensures(T::default, (), v.x),
            call_ensures(T::default, (), v.y),
            call_ensures(T::default, (), v.z),
    {
        Vector3d { x: T::default(), y: T::default(), z: T::default() }
    }
}

impl<T: Copy + Add> Add for Vector3d<T> {
    type Output = Vector3d<T::Output>;

    fn add(self, other: Self) -> (sum: Vector3d<T::Output>) {
        Vector3d { x: self.x + other.x, y: self.y + other.y, z: self.z + other.z }
    }
}

impl<T: Copy + Add> vstd::std_specs::ops::AddSpecImpl for Vector3d<T> {
    open spec fn obeys_add_spec() -> bool {
        T::obeys_add_spec()
    }

    open spec fn add_req(self, other: Self) -> bool {
        self.x.add_req(other.x) && self.y.add_req(other.y) && self.z.add_req(other.z)
    }

    open spec fn add_spec(self, other: Self) -> Vector3d<T::Output> {
        Vector3d {
            x: self.x.add_spec(other.x),
            y: self.y.add_spec(other.y),
            z: self.z.add_spec(other.z),
        }
    }
}

impl<F: Sub, T: Copy + Mul<Output = F>> Mul for Vector3d<T> where F::Output: Copy {
    type Output = Vector3d<F::Output>;

    /// The cross product.
    fn mul(self, other: Self) -> (product: Vector3d<F::Output>) {
        Vector3d {
            x: self.y * other.z - self.z * other.y,
            y: self.z * other.x - self.x * other.z,
            z: self.x * other.y - self.y * other.x,
        }
    }
}

impl<F: Sub, T: Copy + Mul<Output = F>> vstd::std_specs::ops::MulSpecImpl for Vector3d<T> where F::Output: Copy {
    open spec fn obeys_mul_spec() -> bool {
        T::obeys_mul_spec() && F::obeys_sub_spec()
    }

    open spec fn mul_req(self, other: Self) -> bool {
        &&& self.y.mul_req(other.z)
        &&& self.z.mul_req(other.y)
        &&& self.z.mul_req(other.x)
        &&& self.x.mul_req(other.z)
        &&& self.x.mul_req(other.y)
        &&& self.y.mul_req(other.x)
        &&& if T::obeys_mul_spec() {
            &&& self.y.mul_spec(other.z).sub_req(self.z.mul_spec(other.y))
            &&& self.z.mul_spec(other.x).sub_req(self.x.mul_spec(other.z))
            &&& self.x.mul_spec(other.y).sub_req(self.y.mul_spec(other.x))
        } else {
            total_sub::<F>()
        }
    }

    open spec fn mul_spec(self, other: Self) -> Vector3d<F::Output> {
        Vector3d {
            x: self.y.mul_spec(other.z).sub_spec(self.z.mul_spec(other.y)),
            y: self.z.mul_spec(other.x).sub_spec(self.x.mul_spec(other.z)),
            z: self.x.mul_spec(other.y).sub_spec(self.y.mul_spec(other.x)),
        }
    }
}

impl<T: Copy + Mul> Mul<T> for Vector3d<T> {
    type Output = Vector3d<T::Output>;

    /// Every component multiplied by `f`.
    fn mul(self, f: T) -> (scaled: Vector3d<T::Output>) {
        Vector3d { x: self.x * f, y: self.y * f, z: self.z * f }
    }
}

impl<T: Copy + Mul> vstd::std_specs::ops::MulSpecImpl<T> for Vector3d<T> {
    open spec fn obeys_mul_spec() -> bool {
        T::obeys_mul_spec()
    }

    open spec fn mul_req(self, f: T) -> bool {
        self.x.mul_req(f) && self.y.mul_req(f) && self.z.mul_req(f)
    }

    open spec fn mul_spec(self, f: T) -> Vector3d<T::Output> {
        Vector3d { x: self.x.mul_spec(f), y: self.y.mul_spec(f), z: self.z.mul_spec(f) }
    }
}

impl<T: Copy + Div> Div<T> for Vector3d<T> {
    type Output = Vector3d<T::Output>;

    /// Every component divided by `f`.
    fn div(self, f: T) -> (quotient: Vector3d<T::Output>) {
        Vector3d { x: self.x / f, y: self.y / f, z: self.z / f }
    }
}

impl<T: Copy + Div> vstd::std_specs::ops::DivSpecImpl<T> for Vector3d<T> {
    open spec fn obeys_div_spec() -> bool {
        T::obeys_div_spec()
    }

    open spec fn div_req(self, f: T) -> bool {
        self.x.div_req(f) && self.y.div_req(f) && self.z.div_req(f)
    }

    open spec fn div_spec(self, f: T) -> Vector3d<T::Output> {
        Vector3d { x: self.x.div_spec(f), y: self.y.div_spec(f), z: self.z.div_spec(f) }
    }
}

} // verus!
