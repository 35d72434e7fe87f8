//! Positions and the small amount of vector algebra the mesh needs, written
//! once for every number type that brings the arithmetic along.

pub mod algebra;
pub mod vector2d;
pub mod vector3d;
// Declared after the vectors: the verifier has to meet their operators
// before the specifications in here that use them.
pub mod spherical;

pub use algebra::Norm;
pub use algebra::One;
pub use algebra::Trigonometric;
pub use vector2d::Vector2d;
pub use vector3d::Vector3d;

use vstd::prelude::*;

verus! {

/// A 3d location on the layout.
/// 2d location + height.
pub trait Location {
}

} // verus!
