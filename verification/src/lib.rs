//! A plane-sweep partitioner that converts closed vector paths, made of line
//! segments and quadratic Bezier curves, into meshes of B-quads: quadrilateral
//! primitives bounded above and below by a line or a quadratic curve, ready
//! for Loop-Blinn style GPU rasterization.
//!
//! Coordinates are fixed-point integers: every position is a pair of `i64`
//! grid values, and all geometric computation is exact integer arithmetic
//! with explicit truncating division, so every function here is verified.
//!
//! The central guarantees, stated on [`partitioner::Partitioner::partition`]
//! and on [`mesh::MeshLibrary`], are that the three vertex arrays stay
//! parallel, that every index stored in the cover index buffers and the
//! B-quads refers to an existing vertex, that the right-hand vertex pair of
//! every B-quad is vertically aligned, that the sweep terminates, that no
//! endpoint is processed twice, and that every Min endpoint of the
//! partitioned range has been processed when the sweep ends.

pub mod events;
pub mod geometry;
pub mod gpu_data;
pub mod mesh;
pub mod partitioner;
pub mod visited;
