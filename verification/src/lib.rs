//! Mesh construction and scene logic for a small 3D renderer.
//!
//! The library builds triangle meshes (a cube, a subdivided icosphere, a
//! terrain grid) as index meshes whose vertices are described exactly: as
//! rational lattice points, as corners of the golden-ratio icosahedron, as
//! normalised midpoints of earlier vertices, or as samples of a terrain grid.
//! It also holds the viewer's pose and the keyboard rules that move it.

pub mod controls;
pub mod geometry;
pub mod mesh;
pub mod scene;
pub mod shapes;
pub mod sphere;
pub mod terrain;
