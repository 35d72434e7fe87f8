//! Topologies
//!
//! A topology describes the global geometrical form of an object.
//! It can be refined on demand, producing smaller and smaller *regions*.

pub mod sphere;
pub mod utils;
