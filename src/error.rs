use vstd::prelude::*;

verus! {

/// Why a board could not be built, or a cell could not be read.
#[derive(Clone, Copy, Debug, PartialEq, Eq, Structural)]
pub enum BoardError {
    /// The data length is not a multiple of the (given or inferred) row count,
    /// or that row count is zero.
    InvalidDimension,
    /// A raw cell value other than 0 or 1.
    InvalidCell,
    /// A flat index at or past the end of the board.
    OutOfRange,
}

} // verus!
