//! A deterministic voxel-terrain pipeline: a seeded noise field over the
//! world plane, chunked voxel occupancy derived from it, and a cube-soup
//! mesher that turns occupancy into triangle buffers for a renderer.
//!
//! The pipeline works on plain integer data throughout: noise-space
//! coordinates and amplitudes are carried in fixed point, and mesh vertices
//! lie on the integer lattice. The one step that cannot be computed here,
//! evaluating the coherent-noise function itself, is taken as an input: the
//! generator consumes one noise value per terrain column and is specified
//! for every possible value.
#![allow(unused_imports)]
use vstd::prelude::*;

pub mod mesh;
pub mod noise_field;
pub mod terrain;
