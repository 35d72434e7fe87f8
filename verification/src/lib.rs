//! Geodesic sphere meshes: an icosahedron whose faces are split again and
//! again, with every vertex, edge and face numbered in closed form so that
//! two faces sharing an edge agree on the midpoint they create.

pub mod location;
pub mod planet;
pub mod topology;

pub use location::Location;
pub use planet::Planet;
