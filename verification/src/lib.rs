//! Placement of rigid multi-cell pieces on a fixed-size occupancy grid.
//!
//! A piece is an ordered chain of unit movements. Rendering a piece walks the
//! chain from a starting position, marking each destination cell occupied, and
//! aborts with a collision as soon as a movement would leave the grid or land
//! on a cell that is already occupied.

use vstd::prelude::*;

pub mod engine;
pub mod grid;
pub mod piece;

verus! {

/// Number of rows of the grid, fixed at build time.
pub const H: usize = 4;

/// Number of columns of the grid, fixed at build time.
pub const W: usize = 4;

} // verus!
