//! Exact triangle-triangle intersection (the no-division interval test) on
//! integer grid coordinates, and an all-pairs test between triangle soups.

pub mod kernel;
pub mod plane;
pub mod interval;
pub mod coplanar;
pub mod predicate;
pub mod mesh;

pub use kernel::Point3;
pub use predicate::{IsectError, triangles_intersect, no_div_tri_tri_isect};
pub use mesh::{DEFAULT_EPSILON, mesh_mesh_isect};
