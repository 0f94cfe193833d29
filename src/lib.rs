//! Addressing scheme for a subdivided icosahedral planet grid: triangle
//! ("cube") coordinates on the twenty faces, their canonical form across face
//! borders, neighbour stepping, the packed parallelogram storage layout, and
//! the per-field store built on it.

pub mod floor_div;
pub mod laws;
pub mod packing_laws;
pub mod parallelogram;
pub mod planet;
pub mod triangle;
