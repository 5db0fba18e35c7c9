//! Runtime core of a 2D side-scrolling platformer: a fixed-timestep
//! simulation that advances entity physics against a 256x256 tile grid,
//! decodes a compact terrain bytecode into that grid, and software-renders
//! each frame into a pixel buffer.

pub mod collision;
pub mod controller;
pub mod entity;
pub mod foreground;
pub mod framebuffer;
pub mod graphics;
pub mod terrain;
pub mod player;
pub mod pool;
pub mod rand;
pub mod state;
pub mod vec2;

use vstd::prelude::*;

verus! {

/// The tile grid is 256 cells on each side.
pub const GRID_DIM: usize = 256;

/// Total number of cells in the tile grid.
pub const GRID_CELLS: usize = 65536;

} // verus!
