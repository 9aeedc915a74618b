//! Procedural generation of a geodesic sphere mesh.
//!
//! The generator turns a resolution parameter into a closed, watertight
//! triangle mesh of the unit sphere, built by subdividing the eight faces of
//! a six-vertex bipyramid.  Vertex positions are kept symbolic: every vertex
//! is either one of the six axis-aligned base directions or a spherical
//! interpolation between two earlier vertices at a rational parameter, so the
//! whole construction is exact integer data.  An embedding application
//! evaluates the symbolic positions into floating-point coordinates.

pub mod laws;
pub mod sphere_mesh;
