//! Core bookkeeping of a small ray-tracing renderer.
//!
//! The renderer around this library works in `f64` scene space: it casts
//! rays, solves the shape quadratics and evaluates the Phong model. This
//! crate holds the parts of that pipeline that are exact bookkeeping rather
//! than real arithmetic, with contracts for each: the pixel grid, the plain
//! PPM text encoding of a clamped pixel grid, the RGBA row layout for
//! incremental display, the ordering bookkeeping of ray-shape intersections
//! (hit selection and the refractive containment walk), the index and sign
//! rules of the cofactor-expansion matrix inverse, the parity rules of the
//! repeating patterns, and the point/vector tag algebra of homogeneous
//! tuples.

pub mod canvas;
pub mod cmp;
pub mod intersects;
pub mod matrices;
pub mod patterns;
pub mod ppm;
pub mod shapes;
pub mod tuple;
