//! Surface extraction from a sampled signed distance field: a dense
//! volume, per-cell sign analysis, two interchangeable vertex
//! accumulators (a dense grid and a sorted streaming list), and the
//! triangulator that stitches one quad around every crossing edge.
//!
//! Positions and normals are left to the caller as an opaque vertex
//! payload; the library decides which cells carry a vertex and how they are
//! joined.

use vstd::prelude::*;

pub mod extraction;
pub mod geometry;
pub mod grid3d;
pub mod mesh;
pub mod shader;
pub mod shadertoy;
pub mod strategies;
pub mod triangulator;

pub use geometry::{Axis2D, Axis3D, Bounds, Edge, Quad, Triangle};
