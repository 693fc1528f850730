//! A grid-based raycasting renderer.
//!
//! The renderer draws a first-person view of a 2D boolean occupancy grid:
//! a wall caster walks the grid with a DDA traversal to find, for every
//! screen column, the first occupied cell and the wall slice it projects to,
//! and a floor caster fills the rows below the horizon with a projected
//! floor texture, mirrored to the ceiling.
//!
//! All geometry is carried in 16.16 fixed-point arithmetic (`FP_ONE` raw
//! units to one world unit), so every computation is exact integer
//! arithmetic with stated rounding, and every function's result is pinned
//! down by its contract.
#![verifier::loop_isolation(false)]

use vstd::prelude::*;

pub mod fixed;
pub mod geom;
pub mod grid;
pub mod texture;
pub mod buffer;
pub mod viewer;
pub mod ray;
pub mod walls;
pub mod floors;
pub mod render;

verus! {

/// One world unit in fixed-point raw units (16.16 representation).
pub const FP_ONE: i64 = 65536;

/// Saturated reciprocal: stands in for the reciprocal of a zero ray
/// component, larger than any reciprocal a nonzero component can produce.
pub const DELTA_SAT: i64 = 0x4000_0000_0000;

/// Largest grid side length the model admits.
pub const GRID_DIM_MAX: usize = 2048;

/// Largest viewport side length the model admits.
pub const VIEW_DIM_MAX: usize = 4096;

/// Largest texture side length the model admits.
pub const TEX_DIM_MAX: usize = 16384;

/// Bound on the magnitude of a position coordinate (raw units).
pub const POS_LIMIT: i64 = 0x100_0000_0000;

/// Bound on the magnitude of a facing or camera-plane component (raw units).
pub const VEC_LIMIT: i64 = 131072;

/// Bound on the magnitude of a ray-direction component (raw units).
pub const RAY_LIMIT: i64 = 262144;

/// Perpendicular distances are capped here before projection; the cap is
/// beyond any distance reachable inside a grid of admissible size.
pub const PERP_CAP: i64 = 0x4000_0000;

} // verus!
