use vstd::prelude::*;

use crate::error::BoardError;

verus! {

/// The state of one cell.
#[derive(Clone, Copy, Debug, PartialEq, Eq, Structural)]
pub enum CellState {
    Dead,
    Alive,
}

/// 1 for true, 0 for false.
pub open spec fn b2n(b: bool) -> nat {
    if b {
        1
    } else {
        0
    }
}

/// The state of a cell in the next generation, given its state and the
/// number of live cells around it.
pub open spec fn next_state(s: CellState, n: nat) -> CellState {
    match s {
        CellState::Alive => if n == 2 || n == 3 {
            CellState::Alive
        } else {
            CellState::Dead
        },
        CellState::Dead => if n == 3 {
            CellState::Alive
        } else {
            CellState::Dead
        },
    }
}

/// The cell that a raw 0/1 value encodes, if any.
pub open spec fn decode_bit(v: int) -> Option<CellState> {
    if v == 0 {
        Some(CellState::Dead)
    } else if v == 1 {
        Some(CellState::Alive)
    } else {
        None
    }
}

impl CellState {
    pub open spec fn is_alive(self) -> bool {
        self == CellState::Alive
    }

    /// Alive for true, Dead for false.
    pub fn from_bool(value: bool) -> (r: CellState)
        ensures
            r.is_alive() == value,
    {
        if value {
            CellState::Alive
        } else {
            CellState::Dead
        }
    }

    /// Decodes a raw byte: 0 is Dead, 1 is Alive, anything else is refused.
    pub fn try_from_u8(value: u8) -> (r: Result<CellState, BoardError>)
        ensures
            decode_bit(value as int) matches Some(c) ==> r == Ok::<CellState, BoardError>(c),
            decode_bit(value as int) is None ==> r == Err::<CellState, BoardError>(
                BoardError::InvalidCell,
            ),
    {
        match value {
            0 => Ok(CellState::Dead),
            1 => Ok(CellState::Alive),
            _ => Err(BoardError::InvalidCell),
        }
    }

    /// Decodes a raw integer: 0 is Dead, 1 is Alive, anything else is refused.
    pub fn try_from_u64(value: u64) -> (r: Result<CellState, BoardError>)
        ensures
            decode_bit(value as int) matches Some(c) ==> r == Ok::<CellState, BoardError>(c),
            decode_bit(value as int) is None ==> r == Err::<CellState, BoardError>(
                BoardError::InvalidCell,
            ),
    {
        match value {
            0 => Ok(CellState::Dead),
            1 => Ok(CellState::Alive),
            _ => Err(BoardError::InvalidCell),
        }
    }

    /// The state of this cell in the next generation, with `neighbours`
    /// live cells around it: a live cell survives with two or three, a dead
    /// one comes alive with exactly three.
    pub fn evolve(self, neighbours: usize) -> (r: CellState)
        ensures
            r == next_state(self, neighbours as nat),
    {
        match self {
            CellState::Alive => if neighbours == 2 || neighbours == 3 {
                CellState::Alive
            } else {
                CellState::Dead
            },
            CellState::Dead => if neighbours == 3 {
                CellState::Alive
            } else {
                CellState::Dead
            },
        }
    }

    /// "1" for a live cell, "0" for a dead one.
    pub fn to_text(&self) -> (r: String)
        ensures
            r@ == cell_text(*self),
    {
        match self {
            CellState::Alive => {
                proof {
                    reveal_strlit("1");
                }
                String::from_str("1")
            },
            CellState::Dead => {
                proof {
                    reveal_strlit("0");
                }
                String::from_str("0")
            },
        }
    }
}

/// The text of one cell.
pub open spec fn cell_text(c: CellState) -> Seq<char> {
    if c.is_alive() {
        seq!['1']
    } else {
        seq!['0']
    }
}

impl From<bool> for CellState {
    fn from(value: bool) -> (r: CellState) {
        CellState::from_bool(value)
    }
}

impl vstd::std_specs::convert::FromSpecImpl<bool> for CellState {
    open spec fn obeys_from_spec() -> bool {
        true
    }

    open spec fn from_spec(v: bool) -> CellState {
        if v {
            CellState::Alive
        } else {
            CellState::Dead
        }
    }
}

} // verus!
