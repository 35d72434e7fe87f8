//! Positions on a sphere, given by two angles.

use super::algebra::acos_spec;
use super::algebra::atan_spec;
use super::algebra::cos_spec;
use super::algebra::obeys_arithmetic;
use super::algebra::obeys_norm_spec;
use super::algebra::obeys_trigonometric_spec;
use super::algebra::sin_spec;
use super::algebra::total_add;
use super::algebra::total_div;
use super::algebra::total_mul;
use super::algebra::total_sub;
use super::algebra::Norm;
use super::algebra::One;
use super::algebra::Trigonometric;
use super::vector2d::Vector2d;
use super::vector3d::Vector3d;
use std::ops::Add;
use std::ops::Div;
use std::ops::Mul;
use std::ops::Sub;
use vstd::prelude::*;
use vstd::std_specs::ops::AddSpec;
use vstd::std_specs::ops::DivSpec;
use vstd::std_specs::ops::MulSpec;
use vstd::std_specs::ops::SubSpec;

verus! {

/// A position on a sphere: the polar angle, measured from the z axis, and
/// the azimuth, measured around it.
pub struct Position<T> {
    polar: T,
    azimuth: T,
}

impl<T> Position<T> {
    /// The polar angle.
    pub closed spec fn polar(self) -> T {
        self.polar
    }

    /// The azimuth.
    pub closed spec fn azimuth(self) -> T {
        self.azimuth
    }

    pub fn new(polar: T, azimuth: T) -> (position: Position<T>)
        ensures
            position.polar() == polar,
            position.azimuth() == azimuth,
    {
        Position { polar: polar, azimuth: azimuth }
    }
}

impl<T> Position<T> where T: Copy + Trigonometric<Output = T> + Mul<Output = T> + One {
    /// The cartesian position at distance `len` from the centre.
    pub open spec fn as_vector_spec(self, len: T) -> Vector3d<T> {
        Vector3d {
            x: len.mul_spec(sin_spec(self.polar())).mul_spec(cos_spec(self.azimuth())),
            y: len.mul_spec(sin_spec(self.polar())).mul_spec(sin_spec(self.azimuth())),
            z: len.mul_spec(cos_spec(self.polar())),
        }
    }

    /// The cartesian position at distance one from the centre.
    pub open spec fn as_unit_spec(self) -> Vector3d<T> {
        self.as_vector_spec(T::ONE)
    }

    /// Return this spherical position as a cartesian position.
    pub fn as_vector(&self, len: T) -> (v: Vector3d<T>)
        requires
            total_mul::<T>(),
        ensures
            T::obeys_mul_spec() && obeys_trigonometric_spec::<T>() ==> v == self.as_vector_spec(
                len,
            ),
    {
        Vector3d {
            x: len * self.polar.sin() * self.azimuth.cos(),
            y: len * self.polar.sin() * self.azimuth.sin(),
            z: len * self.polar.cos(),
        }
    }

    pub fn as_unit(&self) -> (v: Vector3d<T>)
        requires
            total_mul::<T>(),
        ensures
            T::obeys_mul_spec() && obeys_trigonometric_spec::<T>() ==> v == self.as_unit_spec(),
    {
        self.as_vector(T::ONE)
    }
}

impl<T> Position<T> where T: Copy + Trigonometric<Output = T> + Norm<Output = T> + Div<Output = T> {
    /// The angles of a cartesian position: the polar angle is the arc
    /// cosine of `z` over the length, the azimuth the arc tangent of `y`
    /// over `z`.
    pub open spec fn from_spec(v: Vector3d<T>) -> (T, T) {
        (acos_spec::<T>(v.z.div_spec(v.len_spec::<T>())), atan_spec::<T>(v.y.div_spec(v.z)))
    }

    /// Whether the number type allows the two divisions of `from` on this
    /// vector. Where its norm is a function the first divisor is known;
    /// where it is not, division has to be allowed on all values.
    pub open spec fn from_req(v: Vector3d<T>) -> bool {
        &&& v.y.div_req(v.z)
        &&& if obeys_norm_spec::<T>() {
            v.z.div_req(v.len_spec::<T>())
        } else {
            total_div::<T>()
        }
    }

    /// The spherical position of a cartesian one.
    pub fn from(v: Vector3d<T>) -> (position: Position<T>)
        requires
            Self::from_req(v),
        ensures
            T::obeys_div_spec() && obeys_norm_spec::<T>() && obeys_trigonometric_spec::<T>() ==> (
                position.polar(),
                position.azimuth(),
            ) == Self::from_spec(v),
    {
        Position { polar: T::acos(v.z / v.len()), azimuth: T::atan(v.y / v.z) }
    }
}

impl<T> Position<T> where
    T: Copy + Trigonometric<Output = T> + One + Norm<Output = T> + Mul<Output = T> + Div<
        Output = T,
    > + Sub<Output = T> + Add<Output = T>,
 {
    /// Whether everything that the number type brings along is a function
    /// that follows its specification: the four operations, the norm and
    /// the trigonometric operations.
    pub open spec fn obeys_spec() -> bool {
        obeys_arithmetic::<T>() && obeys_norm_spec::<T>() && obeys_trigonometric_spec::<T>()
    }

    /// What `distance` computes: the length of the cross product of the
    /// two unit vectors over their scalar product.
    pub open spec fn distance_spec(self, other: Position<T>) -> T {
        let a = self.as_unit_spec();
        let b = other.as_unit_spec();
        a.mul_spec(b).len_spec::<T>().div_spec(a.scalar_spec(b))
    }

    /// The unit vector of the plane that `move_to` derives from an angle:
    /// `(1 - cos, sin)`, divided by its length.
    pub open spec fn chord_spec(angle: T) -> Vector2d<T> {
        (Vector2d { x: T::ONE.sub_spec(cos_spec(angle)), y: sin_spec(angle) }).normal_spec()
    }

    /// What `move_to` computes: with `k` the scalar product of the chords
    /// of the whole angle and of the part `f` of it, the two unit vectors
    /// weighted by `1 - k` and `k`, added, and turned into angles again.
    pub open spec fn move_to_spec(self, other: Position<T>, f: T) -> (T, T) {
        let angle = self.distance_spec(other);
        let x = Self::chord_spec(angle);
        let y = Self::chord_spec(f.mul_spec(angle));
        let k = x.scalar_spec(y);
        let p = self.as_unit_spec().mul_spec(T::ONE.sub_spec(k)).add_spec(
            other.as_unit_spec().mul_spec(k),
        );
        Self::from_spec(p)
    }

    /// The sum of the unit vectors of a run of positions, added up from
    /// the first to the last.
    pub open spec fn sum_spec(elements: Seq<Position<T>>) -> Vector3d<T>
        decreases elements.len(),
    {
        if elements.len() <= 1 {
            elements[0].as_unit_spec()
        } else {
            Self::sum_spec(elements.drop_last()).add_spec(elements.last().as_unit_spec())
        }
    }

    /// Return the distance from 0 to PI between two points.
    pub fn distance(&self, other: &Position<T>) -> (d: T)
        requires
            total_add::<T>(),
            total_sub::<T>(),
            total_mul::<T>(),
            total_div::<T>(),
        ensures
            Self::obeys_spec() ==> d == self.distance_spec(*other),
    {
        let a = self.as_vector(T::ONE);
        let b = other.as_vector(T::ONE);

        (a * b).len() / a.scalar(b)
    }

    /// Move in the direction of the given other point by the given factor
    /// (0 -> don't move, 1 -> move all the way, 0.5 -> between the two points, etc.).
    pub fn move_to(&self, other: &Position<T>, f: T) -> (position: Position<T>)
        requires
            total_add::<T>(),
            total_sub::<T>(),
            total_mul::<T>(),
            total_div::<T>(),
        ensures
            Self::obeys_spec() ==> (position.polar(), position.azimuth()) == self.move_to_spec(
                *other,
                f,
            ),
    {
        let angle = self.distance(other);
        let x = Vector2d::unit(T::ONE - angle.cos(), angle.sin());

        let f_angle = f * angle;
        let y = Vector2d::unit(T::ONE - f_angle.cos(), f_angle.sin());

        let k = x.scalar(y);
        let p = self.as_unit() * (T::ONE - k) + other.as_unit() * k;
        Position::from(p)
    }

    /// The position in the middle of the given ones: where the sum of
    /// their unit vectors points. There has to be at least one.
    pub fn mean(elements: &[Position<T>]) -> (position: Position<T>) where
        T: Mul<usize, Output = T>,

        requires
            elements@.len() > 0,
            total_add::<T>(),
            total_mul::<T>(),
            total_div::<T>(),
        ensures
            Self::obeys_spec() ==> (position.polar(), position.azimuth()) == Self::from_spec(
                Self::sum_spec(elements@),
            ),
    {
        let mut v = elements[0].as_unit();
        let mut i: usize = 1;
        proof {
            assert(elements@.take(1).len() == 1);
        }
        while i < elements.len()
            invariant
                1 <= i <= elements@.len(),
                total_add::<T>(),
                total_mul::<T>(),
                Self::obeys_spec() ==> v == Self::sum_spec(elements@.take(i as int)),
            decreases elements@.len() - i,
        {
            proof {
                assert(elements@.take(i + 1).drop_last() =~= elements@.take(i as int));
            }
            v = v + elements[i].as_unit();
            i = i + 1;
        }
        proof {
            assert(elements@.take(i as int) =~= elements@);
        }
        Position::from(v)
    }
}

} // verus!
