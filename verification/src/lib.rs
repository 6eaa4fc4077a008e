//! Marching-squares terrain patches on an integer lattice.
//!
//! A patch is a flat triangle mesh whose boundary follows the line on which
//! a scalar field crosses a threshold. It is computed in five stages, each a
//! module of its own:
//!
//! 1. [`field`]: the scalar field, a function of a point and a depth;
//! 2. [`grid`]: the field sampled on the corners of a square grid of cells;
//! 3. [`triangulate`]: each cell classified by which of its corners lie at
//!    or above the threshold ([`cases`]) and turned into triangles, with
//!    boundary vertices at the midpoint of an edge or at the interpolated
//!    crossing ([`boundary`]), and the triangles assembled into a [`mesh`];
//! 4. [`clip`]: triangles wholly outside a disc dropped and the vertices
//!    left outside pulled back to it ([`radial`]);
//! 5. [`wireframe`]: the triangle edges as line segments, for an overlay.
//!
//! [`patch`] runs the stages for one set of parameters.
//!
//! Every quantity is a whole number: positions are lattice points in world
//! units, field values and texture coordinates are fixed-point numbers. The
//! contracts are therefore exact, and the geometric laws (vertices within the
//! disc, counter-clockwise winding, neighbouring cells agreeing on shared
//! vertices) hold without tolerance.

pub mod arithmetic;
pub mod boundary;
pub mod cases;
pub mod clip;
pub mod error;
pub mod field;
pub mod geometry;
pub mod grid;
pub mod mesh;
pub mod patch;
pub mod radial;
pub mod roots;
pub mod triangulate;
pub mod wireframe;

pub use clip::RadialClipper;
pub use error::MeshError;
pub use field::FieldSampler;
pub use grid::{Grid, GridBuilder, GridCell};
pub use mesh::Mesh;
pub use patch::{generate, Patch, PatchParams};
pub use triangulate::MarchingSquaresTriangulator;
pub use wireframe::WireframeExtractor;
