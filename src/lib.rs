//! Conway's Game of Life on a bounded (non-wrapping) rectangular grid.
use vstd::prelude::*;

pub mod board;
pub mod cell;
pub mod error;

pub use board::Board;
pub use cell::CellState;
pub use error::BoardError;

verus! {

} // verus!
