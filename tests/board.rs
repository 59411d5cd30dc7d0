use game_of_life::{Board, BoardError, CellState};

fn cells(bits: &[u8]) -> Vec<CellState> {
    bits.iter()
        .map(|b| if *b == 1 { CellState::Alive } else { CellState::Dead })
        .collect()
}

fn board_of(bits: Vec<u8>, rows: Option<usize>) -> Board {
    Board::from_u8_vec(bits, rows).unwrap()
}

#[test]
fn test_create_board() {
    let board = Board::new(3, 3);
    assert_eq!(9, board.size());
}

#[test]
fn test_from_u8_vec_no_rows() {
    let board = Board::from_u8_vec(vec![0, 0, 1, 0], None).unwrap();
    assert_eq!(2, board.x_size);
    assert_eq!(2, board.y_size);
}

#[test]
fn test_from_u8_vec_with_rows() {
    let board = Board::from_u8_vec(vec![0, 0, 1, 0, 0, 0], Some(3)).unwrap();
    assert_eq!(2, board.x_size);
    assert_eq!(3, board.y_size);
}

#[test]
fn test_from_u8_vec_no_rows_invalid_data_size() {
    assert_eq!(
        Board::from_u8_vec(vec![0, 0, 1, 0, 0], None),
        Err(BoardError::InvalidDimension)
    );
}

#[test]
fn test_from_u8_vec_with_rows_invalid_data_size() {
    assert_eq!(
        Board::from_u8_vec(vec![0, 0, 1, 0, 0], Some(2)),
        Err(BoardError::InvalidDimension)
    );
}

#[test]
fn neighbours_index_0_three() {
    let board = board_of(vec![0, 1, 0, 1, 1, 0, 0, 0, 0], None);
    assert_eq!(3, board.x_size);
    assert_eq!(3, board.y_size);
    assert_eq!(Ok(3), board.get_neighbours(0));
}

#[test]
fn neighbours_index_0_two() {
    let board = board_of(vec![0, 1, 0, 1, 0, 0, 0, 0, 0], None);
    assert_eq!(Ok(2), board.get_neighbours(0));
}

#[test]
fn neighbours_index_1_three() {
    let board = board_of(vec![1, 1, 1, 1, 0, 0, 0, 0, 0], None);
    assert_eq!(Ok(3), board.get_neighbours(1));
}

#[test]
fn neighbours_index_8_three() {
    let board = board_of(vec![1, 1, 1, 1, 1, 1, 0, 1, 0], None);
    assert_eq!(Ok(3), board.get_neighbours(8));
}

#[test]
fn neighbours_index_4_six() {
    let board = board_of(vec![1, 1, 1, 1, 1, 1, 0, 1, 0], None);
    assert_eq!(Ok(6), board.get_neighbours(4));
}

#[test]
fn neighbours_on_full_board_match_arity() {
    // 4 by 3, every cell alive: corners see 3, edges 5, interior 8
    let board = board_of(vec![1; 12], Some(3));
    assert_eq!(4, board.x_size);
    let expected = [3, 5, 5, 3, 5, 8, 8, 5, 3, 5, 5, 3];
    for (i, n) in expected.iter().enumerate() {
        assert_eq!(Ok(*n), board.get_neighbours(i));
    }
}

#[test]
fn neighbours_do_not_wrap_around_rows() {
    // last cell of row 0 alive; first cell of row 1 must not count it
    let board = board_of(vec![0, 0, 1, 0, 0, 0, 0, 0, 0], None);
    assert_eq!(Ok(0), board.get_neighbours(3));
    assert_eq!(Ok(1), board.get_neighbours(5));
}

#[test]
fn neighbours_single_row_and_column() {
    let row = board_of(vec![1, 1, 1], Some(1));
    assert_eq!(Ok(1), row.get_neighbours(0));
    assert_eq!(Ok(2), row.get_neighbours(1));
    let column = board_of(vec![1, 1, 1], Some(3));
    assert_eq!(1, column.x_size);
    assert_eq!(Ok(2), column.get_neighbours(1));
    assert_eq!(Ok(1), column.get_neighbours(2));
}

#[test]
fn neighbours_out_of_range() {
    let board = Board::new(2, 2);
    assert_eq!(Err(BoardError::OutOfRange), board.get_neighbours(4));
}

#[test]
fn new_board_is_all_dead() {
    let board = Board::new(4, 3);
    assert_eq!(12, board.size());
    assert_eq!(4, board.x_size);
    assert_eq!(3, board.y_size);
    assert!(board.data.iter().all(|c| *c == CellState::Dead));
}

#[test]
fn new_board_with_zero_dimension_is_empty() {
    let board = Board::new(0, 5);
    assert_eq!(0, board.size());
    assert_eq!(Err(BoardError::OutOfRange), board.get_index_state(0));
}

#[test]
fn square_board() {
    let board = Board::square(5);
    assert_eq!(25, board.size());
    assert_eq!(5, board.x_size);
    assert_eq!(5, board.y_size);
}

#[test]
fn randomise_has_every_cell() {
    let board = Board::randomise(7, 3);
    assert_eq!(21, board.size());
    assert_eq!(21, board.data.len());
    assert_eq!(7, board.x_size);
    assert_eq!(3, board.y_size);
    let square = Board::randomise_square(6);
    assert_eq!(36, square.data.len());
}

#[test]
fn randomise_draws_both_states() {
    // 4096 fair draws: all equal happens with probability 2^-4095
    let board = Board::randomise(64, 64);
    assert!(board.data.iter().any(|c| *c == CellState::Alive));
    assert!(board.data.iter().any(|c| *c == CellState::Dead));
}

#[test]
fn from_vec_with_rows() {
    let board = Board::from_vec(cells(&[1, 0, 0, 1, 1, 0]), Some(2)).unwrap();
    assert_eq!(3, board.x_size);
    assert_eq!(2, board.y_size);
    assert_eq!(Ok(CellState::Alive), board.get_index_state(3));
    assert_eq!(Ok(CellState::Dead), board.get_index_state(5));
}

#[test]
fn from_vec_zero_rows_is_refused() {
    assert_eq!(
        Board::from_vec(cells(&[1, 0]), Some(0)),
        Err(BoardError::InvalidDimension)
    );
}

#[test]
fn from_vec_infers_floor_sqrt_rows() {
    // length 12: floor(sqrt(12)) = 3 rows of 4
    let board = Board::from_vec(cells(&[0; 12]), None).unwrap();
    assert_eq!(3, board.y_size);
    assert_eq!(4, board.x_size);
    // length 10: 3 rows do not divide 10
    assert_eq!(
        Board::from_vec(cells(&[0; 10]), None),
        Err(BoardError::InvalidDimension)
    );
    // length 1: one cell
    let one = Board::from_vec(cells(&[1]), None).unwrap();
    assert_eq!((1, 1), (one.x_size, one.y_size));
    // length 0: no rows to infer
    assert_eq!(Board::from_vec(vec![], None), Err(BoardError::InvalidDimension));
}

#[test]
fn from_vec_large_square() {
    let board = Board::from_vec(vec![CellState::Dead; 10_000], None).unwrap();
    assert_eq!(100, board.y_size);
    assert_eq!(100, board.x_size);
}

#[test]
fn from_u8_vec_rejects_bad_byte() {
    assert_eq!(
        Board::from_u8_vec(vec![0, 2, 1, 0], None),
        Err(BoardError::InvalidCell)
    );
}

#[test]
fn from_u8_vec_checks_shape_before_bytes() {
    assert_eq!(
        Board::from_u8_vec(vec![0, 2, 1], Some(2)),
        Err(BoardError::InvalidDimension)
    );
}

#[test]
fn get_index_state_reads_row_major() {
    let board = board_of(vec![0, 1, 0, 0, 0, 1], Some(2));
    assert_eq!(Ok(CellState::Alive), board.get_index_state(1));
    assert_eq!(Ok(CellState::Alive), board.get_index_state(5));
    assert_eq!(Ok(CellState::Dead), board.get_index_state(0));
    assert_eq!(Err(BoardError::OutOfRange), board.get_index_state(6));
}

#[test]
fn step_on_dead_board_stays_dead() {
    let mut board = Board::new(5, 4);
    let before = board.clone();
    board.step();
    assert_eq!(before, board);
}

#[test]
fn step_keeps_block() {
    let start = vec![
        0, 0, 0, 0, //
        0, 1, 1, 0, //
        0, 1, 1, 0, //
        0, 0, 0, 0,
    ];
    let mut board = board_of(start.clone(), None);
    board.step();
    assert_eq!(board_of(start, None), board);
}

#[test]
fn step_blinker_has_period_two() {
    let horizontal = vec![
        0, 0, 0, 0, 0, //
        0, 0, 0, 0, 0, //
        0, 1, 1, 1, 0, //
        0, 0, 0, 0, 0, //
        0, 0, 0, 0, 0,
    ];
    let vertical = vec![
        0, 0, 0, 0, 0, //
        0, 0, 1, 0, 0, //
        0, 0, 1, 0, 0, //
        0, 0, 1, 0, 0, //
        0, 0, 0, 0, 0,
    ];
    let mut board = board_of(horizontal.clone(), None);
    board.step();
    assert_eq!(board_of(vertical, None), board);
    board.step();
    assert_eq!(board_of(horizontal, None), board);
}

#[test]
fn step_applies_birth_and_death() {
    // a lone live cell dies; a dead cell with three live neighbours is born
    let mut board = board_of(vec![1, 1, 0, 1, 0, 0, 0, 0, 0], None);
    board.step();
    assert_eq!(board_of(vec![1, 1, 0, 1, 1, 0, 0, 0, 0], None), board);
    let mut lone = board_of(vec![0, 0, 0, 0, 1, 0, 0, 0, 0], None);
    lone.step();
    assert_eq!(Board::new(3, 3), lone);
}

#[test]
fn step_kills_overcrowded_cell() {
    // centre has 4 live neighbours and dies
    let mut board = board_of(vec![1, 0, 1, 0, 1, 0, 1, 0, 1], None);
    board.step();
    assert_eq!(Ok(CellState::Dead), board.get_index_state(4));
}

#[test]
fn to_text_renders_rows() {
    let board = board_of(vec![0, 1, 1, 0, 0, 1], Some(2));
    assert_eq!(" 0  1  1 \n 0  0  1 \n", board.to_text());
    assert_eq!("", Board::new(0, 0).to_text());
}
