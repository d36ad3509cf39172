//! Mesh utilities: building triangle meshes, slicing them along a plane,
//! subdividing an octahedron into a sphere, and exploding a mesh into fragments.
//!
//! The vertex type `V` is left generic: the geometry on vertices (dot products,
//! normalization, interpolation) is floating-point work that the caller supplies;
//! what is verified here is how triangles, vertices and indices are arranged.
pub mod explode;
pub mod fragments;
pub mod slicer;
pub mod sphere;
pub mod util;
