//! Core of a voxel renderer: one ray per output pixel is marched through a
//! uniform 3D grid of blocks until it strikes an occupied cell, and the hit is
//! mapped to a color in a framebuffer.
//!
//! Everything floating-point — camera ray synthesis and the ray-parameter
//! bookkeeping of the traversal — lives outside this library and feeds it
//! plain integer data: a start cell, per-axis step directions, and the
//! sequence of axis choices the ray parameters dictate.

pub mod block;
pub mod errors;
pub mod grid;
pub mod march;
pub mod render;
pub mod units;
