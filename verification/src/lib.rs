//! Hexagonal-grid map model for loop puzzles, with a verified binary codec.
//!
//! A map is a radius together with a cell for each axial coordinate inside
//! that radius. The on-disk format stores one packed byte per cell in a
//! canonical enumeration order that is re-derived at load time; the codec
//! proves that this order, the per-cell packing, and the file-level layout
//! round-trip exactly.

pub mod args;
pub mod codec;
pub mod coords;
pub mod generator;
pub mod model;
