use game_of_life::{BoardError, CellState};

#[test]
fn cell_from_bool() {
    assert_eq!(CellState::Alive, CellState::from(true));
    assert_eq!(CellState::Dead, CellState::from(false));
    assert_eq!(CellState::Alive, CellState::from_bool(true));
}

#[test]
fn cell_from_integers() {
    assert_eq!(Ok(CellState::Dead), CellState::try_from_u8(0));
    assert_eq!(Ok(CellState::Alive), CellState::try_from_u8(1));
    assert_eq!(Err(BoardError::InvalidCell), CellState::try_from_u8(2));
    assert_eq!(Err(BoardError::InvalidCell), CellState::try_from_u8(255));
    assert_eq!(Ok(CellState::Alive), CellState::try_from_u64(1));
    assert_eq!(Err(BoardError::InvalidCell), CellState::try_from_u64(7));
}

#[test]
fn cell_evolve_rule() {
    assert_eq!(CellState::Dead, CellState::Alive.evolve(1));
    assert_eq!(CellState::Alive, CellState::Alive.evolve(2));
    assert_eq!(CellState::Alive, CellState::Alive.evolve(3));
    assert_eq!(CellState::Dead, CellState::Alive.evolve(4));
    assert_eq!(CellState::Dead, CellState::Dead.evolve(2));
    assert_eq!(CellState::Alive, CellState::Dead.evolve(3));
    assert_eq!(CellState::Dead, CellState::Dead.evolve(8));
}

#[test]
fn cell_text() {
    assert_eq!("1", CellState::Alive.to_text());
    assert_eq!("0", CellState::Dead.to_text());
}
