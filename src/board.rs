use vstd::prelude::*;

use crate::cell::{b2n, cell_text, decode_bit, next_state, CellState};
use crate::error::BoardError;

verus! {

/// A grid of cells stored row-major: flat index `i` is row `i / x_size`,
/// column `i % x_size`.
#[derive(Clone, Debug, PartialEq)]
pub struct Board {
    pub data: Vec<CellState>,
    /// Number of columns.
    pub x_size: usize,
    /// Number of rows.
    pub y_size: usize,
}

/// Whether `(r, c)` lies on an `x` by `y` grid (`x` columns, `y` rows).
pub open spec fn in_bounds(x: int, y: int, r: int, c: int) -> bool {
    0 <= r < y && 0 <= c < x
}

/// How many of the eight positions around `(r, c)` lie on an `x` by `y` grid:
/// the cells that a neighbour count looks at.
pub open spec fn neighbour_arity(x: int, y: int, r: int, c: int) -> nat {
    b2n(in_bounds(x, y, r - 1, c - 1)) + b2n(in_bounds(x, y, r - 1, c)) + b2n(
        in_bounds(x, y, r - 1, c + 1),
    ) + b2n(in_bounds(x, y, r, c - 1)) + b2n(in_bounds(x, y, r, c + 1)) + b2n(
        in_bounds(x, y, r + 1, c - 1),
    ) + b2n(in_bounds(x, y, r + 1, c)) + b2n(in_bounds(x, y, r + 1, c + 1))
}

/// A sequence of `n` dead cells.
pub open spec fn dead_cells(n: nat) -> Seq<CellState> {
    Seq::new(n, |i: int| CellState::Dead)
}

/// The cells that raw values encode, one for one, if all of them are 0 or 1.
pub open spec fn decode_all(v: Seq<u8>) -> Option<Seq<CellState>> {
    if forall|i: int| 0 <= i < v.len() ==> (#[trigger] decode_bit(v[i] as int)) is Some {
        Some(Seq::new(v.len(), |i: int| decode_bit(v[i] as int)->Some_0))
    } else {
        None
    }
}

/// Whether `r` is the floor of the square root of `n`.
pub open spec fn is_floor_sqrt(r: int, n: int) -> bool {
    0 <= r && r * r <= n < (r + 1) * (r + 1)
}

/// The floor of the square root of `n`.
pub open spec fn floor_sqrt(n: int) -> int {
    choose|r: int| is_floor_sqrt(r, n)
}

/// The number of rows that `from_vec` and `from_u8_vec` give `len` cells: the
/// one given, else the floor of the square root of `len`.
pub open spec fn row_count(len: int, rows: Option<usize>) -> int {
    match rows {
        Some(n) => n as int,
        None => floor_sqrt(len),
    }
}

/// Whether `n` rows make a rectangle of `len` cells.
pub open spec fn rows_fit(len: int, n: int) -> bool {
    n > 0 && len % n == 0
}

/// A square root has one floor.
pub proof fn lemma_floor_sqrt_unique(a: int, b: int, n: int)
    requires
        is_floor_sqrt(a, n),
        is_floor_sqrt(b, n),
    ensures
        a == b,
{
    if a < b {
        assert((a + 1) * (a + 1) <= b * b) by (nonlinear_arith)
            requires
                0 <= a,
                a + 1 <= b,
        ;
    } else if b < a {
        assert((b + 1) * (b + 1) <= a * a) by (nonlinear_arith)
            requires
                0 <= b,
                b + 1 <= a,
        ;
    }
}

/// The floor of the square root of `n`.
fn isqrt(n: usize) -> (r: usize)
    ensures
        r == floor_sqrt(n as int),
{
    let mut r: usize = 0;
    // (r + 1) squared, held in u128 so that it cannot overflow
    let mut next_sq: u128 = 1;
    while next_sq <= n as u128
        invariant
            r * r <= n,
            next_sq == (r + 1) * (r + 1),
        decreases n - r,
    {
        assert(r + 1 <= n) by (nonlinear_arith)
            requires
                (r + 1) * (r + 1) <= n,
                r >= 0,
        ;
        r = r + 1;
        assert((r + 1) * (r + 1) == r * r + 2 * r + 1) by (nonlinear_arith);
        next_sq = next_sq + 2 * (r as u128) + 1;
    }
    assert(is_floor_sqrt(r as int, n as int));
    let ghost s = floor_sqrt(n as int);
    proof {
        lemma_floor_sqrt_unique(s, r as int, n as int);
    }
    r
}

/// The row count for `len` cells: the one given, else the floor of the
/// square root of `len`.
fn rows_for(len: usize, rows: Option<usize>) -> (n: usize)
    ensures
        n == row_count(len as int, rows),
{
    match rows {
        Some(n) => n,
        None => isqrt(len),
    }
}

/// Relies on rand::random: a value drawn from the thread-local generator.
/// Nothing is promised of which value comes out.
pub assume_specification<T>[ rand::random::<T> ]() -> (r: T)
    where
        rand::distributions::Standard: rand::distributions::Distribution<T>,
;

impl Board {
    /// The board's invariant: one cell per position.
    pub open spec fn wf(self) -> bool {
        self.data@.len() == self.x_size * self.y_size
    }

    /// The cells, row-major.
    pub open spec fn cells(self) -> Seq<CellState> {
        self.data@
    }

    pub open spec fn row_of(self, i: int) -> int {
        i / self.x_size as int
    }

    pub open spec fn col_of(self, i: int) -> int {
        i % self.x_size as int
    }

    /// Whether the cell at row `r`, column `c` exists and is alive.
    pub open spec fn alive_at(self, r: int, c: int) -> bool {
        &&& in_bounds(self.x_size as int, self.y_size as int, r, c)
        &&& self.data@[r * self.x_size + c] == CellState::Alive
    }

    /// Number of live cells among the up to eight cells around row `r`,
    /// column `c`.
    pub open spec fn neighbours_at(self, r: int, c: int) -> nat {
        b2n(self.alive_at(r - 1, c - 1)) + b2n(self.alive_at(r - 1, c)) + b2n(
            self.alive_at(r - 1, c + 1),
        ) + b2n(self.alive_at(r, c - 1)) + b2n(self.alive_at(r, c + 1)) + b2n(
            self.alive_at(r + 1, c - 1),
        ) + b2n(self.alive_at(r + 1, c)) + b2n(self.alive_at(r + 1, c + 1))
    }

    /// Number of live neighbours of the cell at flat index `i`.
    pub open spec fn neighbours_of(self, i: int) -> nat {
        self.neighbours_at(self.row_of(i), self.col_of(i))
    }

    /// The cells of the next generation, each computed from this one.
    pub open spec fn next_cells(self) -> Seq<CellState> {
        Seq::new(self.data@.len(), |i: int| next_state(self.data@[i], self.neighbours_of(i)))
    }

    /// The text of the first `k` cells: each cell as its digit between two
    /// spaces, and a newline after the last cell of each row.
    pub open spec fn text_prefix(self, k: nat) -> Seq<char>
        decreases k,
    {
        if k == 0 {
            Seq::empty()
        } else {
            let t = self.text_prefix((k - 1) as nat) + seq![' '] + cell_text(self.data@[k - 1])
                + seq![' '];
            if k as int % self.x_size as int == 0 {
                t + seq!['\n']
            } else {
                t
            }
        }
    }

    /// The text of the whole board, one line per row.
    pub open spec fn text(self) -> Seq<char> {
        self.text_prefix(self.data@.len())
    }

    /// An `x` by `y` board of dead cells (`x` columns, `y` rows). A zero
    /// dimension gives an empty board.
    pub fn new(x: usize, y: usize) -> (b: Board)
        requires
            x * y <= usize::MAX,
        ensures
            b.wf(),
            b.x_size == x,
            b.y_size == y,
            b.cells() == dead_cells((x * y) as nat),
    {
        let n: usize = x * y;
        let data = vec![CellState::Dead; n];
        assert(data@ == dead_cells(n as nat));
        Board { data, x_size: x, y_size: y }
    }

    /// An `x` by `x` board of dead cells.
    pub fn square(x: usize) -> (b: Board)
        requires
            x * x <= usize::MAX,
        ensures
            b.wf(),
            b.x_size == x,
            b.y_size == x,
            b.cells() == dead_cells((x * x) as nat),
    {
        Self::new(x, x)
    }

    /// Number of cells.
    pub fn size(&self) -> (n: usize)
        requires
            self.wf(),
        ensures
            n == self.x_size * self.y_size,
            n == self.cells().len(),
    {
        self.data.len()
    }

    /// The cell at a flat index; `OutOfRange` past the end.
    pub fn get_index_state(&self, index: usize) -> (r: Result<CellState, BoardError>)
        requires
            self.wf(),
        ensures
            index < self.cells().len() ==> r == Ok::<CellState, BoardError>(
                self.cells()[index as int],
            ),
            index >= self.cells().len() ==> r == Err::<CellState, BoardError>(
                BoardError::OutOfRange,
            ),
    {
        if index < self.data.len() {
            Ok(self.data[index])
        } else {
            Err(BoardError::OutOfRange)
        }
    }
    /// 1 if the cell at row `r + dr`, column `c + dc` exists and is alive,
    /// else 0. Reads no cell off the board.
    fn live_at_offset(&self, r: usize, c: usize, dr: i8, dc: i8) -> (n: usize)
        requires
            self.wf(),
            r < self.y_size,
            c < self.x_size,
            -1 <= dr <= 1,
            -1 <= dc <= 1,
        ensures
            n == b2n(self.alive_at(r + dr, c + dc)),
    {
        if (dr < 0 && r == 0) || (dr > 0 && r + 1 >= self.y_size) || (dc < 0 && c == 0) || (dc
            > 0 && c + 1 >= self.x_size) {
            return 0;
        }
        let nr: usize = if dr < 0 {
            r - 1
        } else if dr > 0 {
            r + 1
        } else {
            r
        };
        let nc: usize = if dc < 0 {
            c - 1
        } else if dc > 0 {
            c + 1
        } else {
            c
        };
        let x = self.x_size;
        let y = self.y_size;
        let len = self.data.len();
        assert(nr * x + nc < len) by (nonlinear_arith)
            requires
                nr < y,
                nc < x,
                len == x * y,
        ;
        if self.data[nr * x + nc] == CellState::Alive {
            1
        } else {
            0
        }
    }

    /// Number of live cells around the cell at flat index `index`, found by
    /// its row and column: each of the eight positions around it counts only
    /// where it lies on the board.
    fn count_neighbours(&self, index: usize) -> (n: usize)
        requires
            self.wf(),
            index < self.cells().len(),
        ensures
            n == self.neighbours_of(index as int),
    {
        let x = self.x_size;
        let y = self.y_size;
        assert(x > 0) by (nonlinear_arith)
            requires
                index < x * y,
        ;
        let r: usize = index / x;
        let c: usize = index % x;
        assert(r < y) by (nonlinear_arith)
            requires
                index < x * y,
                x > 0,
                r == index / x,
        ;
        let mut n: usize = 0;
        n = n + self.live_at_offset(r, c, -1, -1);
        n = n + self.live_at_offset(r, c, -1, 0);
        n = n + self.live_at_offset(r, c, -1, 1);
        n = n + self.live_at_offset(r, c, 0, -1);
        n = n + self.live_at_offset(r, c, 0, 1);
        n = n + self.live_at_offset(r, c, 1, -1);
        n = n + self.live_at_offset(r, c, 1, 0);
        n = n + self.live_at_offset(r, c, 1, 1);
        n
    }

    /// Number of live cells around the cell at a flat index; `OutOfRange`
    /// past the end.
    pub fn get_neighbours(&self, index: usize) -> (r: Result<usize, BoardError>)
        requires
            self.wf(),
        ensures
            index < self.cells().len() ==> r == Ok::<usize, BoardError>(
                self.neighbours_of(index as int) as usize,
            ),
            index >= self.cells().len() ==> r == Err::<usize, BoardError>(
                BoardError::OutOfRange,
            ),
    {
        if index < self.data.len() {
            Ok(self.count_neighbours(index))
        } else {
            Err(BoardError::OutOfRange)
        }
    }
    /// A board holding `data` row-major in `rows` rows, or in the floor of
    /// the square root of its length where `rows` is `None`.
    /// `InvalidDimension` where that row count is zero or does not divide the
    /// length.
    pub fn from_vec(data: Vec<CellState>, rows: Option<usize>) -> (r: Result<Board, BoardError>)
        ensures
            r is Ok <==> rows_fit(data@.len() as int, row_count(data@.len() as int, rows)),
            r matches Ok(b) ==> {
                &&& b.wf()
                &&& b.y_size == row_count(data@.len() as int, rows)
                &&& b.x_size == data@.len() as int / row_count(data@.len() as int, rows)
                &&& b.cells() == data@
            },
            r is Err ==> r == Err::<Board, BoardError>(BoardError::InvalidDimension),
    {
        let len = data.len();
        let n = rows_for(len, rows);
        if n == 0 || len % n != 0 {
            return Err(BoardError::InvalidDimension);
        }
        let cols: usize = len / n;
        assert(cols * n == len) by (nonlinear_arith)
            requires
                n > 0,
                len % n == 0,
                cols == len / n,
        ;
        Ok(Board { data, x_size: cols, y_size: n })
    }

    /// A board from raw bytes, 0 for Dead and 1 for Alive, shaped as
    /// `from_vec` shapes cells. `InvalidDimension` as there; else
    /// `InvalidCell` where a byte is neither 0 nor 1.
    pub fn from_u8_vec(data: Vec<u8>, rows: Option<usize>) -> (r: Result<Board, BoardError>)
        ensures
            !rows_fit(data@.len() as int, row_count(data@.len() as int, rows)) ==> r == Err::<
                Board,
                BoardError,
            >(BoardError::InvalidDimension),
            rows_fit(data@.len() as int, row_count(data@.len() as int, rows)) && decode_all(
                data@,
            ) is None ==> r == Err::<Board, BoardError>(BoardError::InvalidCell),
            r is Ok <==> rows_fit(data@.len() as int, row_count(data@.len() as int, rows))
                && decode_all(data@) is Some,
            r matches Ok(b) ==> {
                &&& b.wf()
                &&& b.y_size == row_count(data@.len() as int, rows)
                &&& b.x_size == data@.len() as int / row_count(data@.len() as int, rows)
                &&& b.cells() == decode_all(data@)->Some_0
            },
    {
        let len = data.len();
        let n = rows_for(len, rows);
        if n == 0 || len % n != 0 {
            return Err(BoardError::InvalidDimension);
        }
        let mut cells: Vec<CellState> = Vec::with_capacity(len);
        for i in 0..len
            invariant
                len == data@.len(),
                n == row_count(len as int, rows),
                rows_fit(len as int, n as int),
                cells@.len() == i,
                forall|j: int|
                    0 <= j < i ==> decode_bit(data@[j] as int) == Some(#[trigger] cells@[j]),
        {
            match CellState::try_from_u8(data[i]) {
                Ok(c) => cells.push(c),
                Err(e) => {
                    assert(decode_bit(data@[i as int] as int) is None);
                    return Err(e);
                },
            }
        }
        assert forall|j: int| 0 <= j < data@.len() implies (#[trigger] decode_bit(
            data@[j] as int,
        )) is Some by {
            assert(decode_bit(data@[j] as int) == Some(cells@[j]));
        }
        assert(cells@ =~= decode_all(data@)->Some_0);
        let cols: usize = len / n;
        assert(cols * n == len) by (nonlinear_arith)
            requires
                n > 0,
                len % n == 0,
                cols == len / n,
        ;
        Ok(Board { data: cells, x_size: cols, y_size: n })
    }

    /// The cells of the next generation, computed from this one alone.
    fn next_generation(&self) -> (v: Vec<CellState>)
        requires
            self.wf(),
        ensures
            v@ == self.next_cells(),
    {
        let len = self.data.len();
        let mut next: Vec<CellState> = Vec::with_capacity(len);
        for i in 0..len
            invariant
                self.wf(),
                len == self.data@.len(),
                next@.len() == i,
                forall|j: int|
                    0 <= j < i ==> #[trigger] next@[j] == next_state(
                        self.data@[j],
                        self.neighbours_of(j),
                    ),
        {
            let n = self.count_neighbours(i);
            next.push(self.data[i].evolve(n));
        }
        assert(next@ =~= self.next_cells());
        next
    }

    /// Advances the board one generation. Every neighbour count is taken on
    /// the current generation before any cell changes.
    pub fn step(&mut self)
        requires
            old(self).wf(),
        ensures
            final(self).wf(),
            final(self).x_size == old(self).x_size,
            final(self).y_size == old(self).y_size,
            final(self).cells() == old(self).next_cells(),
    {
        let next = self.next_generation();
        self.data = next;
    }
    /// An `x` by `y` board whose cells are each drawn at random, Alive or
    /// Dead with even odds.
    pub fn randomise(x: usize, y: usize) -> (b: Board)
        requires
            x * y <= usize::MAX,
        ensures
            b.wf(),
            b.x_size == x,
            b.y_size == y,
            b.cells().len() == x * y,
    {
        let n: usize = x * y;
        let mut data: Vec<CellState> = Vec::with_capacity(n);
        for i in 0..n
            invariant
                data@.len() == i,
        {
            let bit: bool = rand::random::<bool>();
            data.push(CellState::from_bool(bit));
        }
        Board { data, x_size: x, y_size: y }
    }

    /// An `x` by `x` board of random cells.
    pub fn randomise_square(x: usize) -> (b: Board)
        requires
            x * x <= usize::MAX,
        ensures
            b.wf(),
            b.x_size == x,
            b.y_size == x,
            b.cells().len() == x * x,
    {
        Self::randomise(x, x)
    }
    /// The board as text, one line per row, each cell written as " 0 " when
    /// dead and " 1 " when alive.
    pub fn to_text(&self) -> (s: String)
        requires
            self.wf(),
        ensures
            s@ == self.text(),
    {
        let len = self.data.len();
        let x = self.x_size;
        let mut out = String::new();
        for i in 0..len
            invariant
                self.wf(),
                len == self.data@.len(),
                x == self.x_size,
                out@ == self.text_prefix(i as nat),
        {
            assert(x > 0) by (nonlinear_arith)
                requires
                    i < len,
                    len == x * self.y_size,
            ;
            match self.data[i] {
                CellState::Alive => {
                    proof {
                        reveal_strlit(" 1 ");
                    }
                    out.append(" 1 ");
                },
                CellState::Dead => {
                    proof {
                        reveal_strlit(" 0 ");
                    }
                    out.append(" 0 ");
                },
            }
            if (i + 1) % x == 0 {
                proof {
                    reveal_strlit("\n");
                }
                out.append("\n");
            }
        }
        out
    }
}

/// Whether row `r`, column `c` is one of the four corners of an `x` by `y` grid.
pub open spec fn is_corner(x: int, y: int, r: int, c: int) -> bool {
    (r == 0 || r == y - 1) && (c == 0 || c == x - 1)
}

/// Whether row `r`, column `c` lies on the border of an `x` by `y` grid but is
/// no corner.
pub open spec fn is_edge(x: int, y: int, r: int, c: int) -> bool {
    (r == 0 || r == y - 1 || c == 0 || c == x - 1) && !is_corner(x, y, r, c)
}

/// Whether row `r`, column `c` lies inside an `x` by `y` grid, off its border.
pub open spec fn is_interior(x: int, y: int, r: int, c: int) -> bool {
    0 < r < y - 1 && 0 < c < x - 1
}

/// The row and column of a flat index lie on the board, and give the index
/// back.
pub proof fn lemma_position_of_index(b: Board, i: int)
    requires
        b.wf(),
        0 <= i < b.cells().len(),
    ensures
        b.x_size > 0,
        in_bounds(b.x_size as int, b.y_size as int, b.row_of(i), b.col_of(i)),
        b.row_of(i) * b.x_size + b.col_of(i) == i,
{
    let x = b.x_size as int;
    let y = b.y_size as int;
    assert(x > 0) by (nonlinear_arith)
        requires
            i < x * y,
            0 <= i,
            0 <= x,
            0 <= y,
    ;
    assert(b.row_of(i) < y && 0 <= b.row_of(i)) by (nonlinear_arith)
        requires
            0 <= i < x * y,
            x > 0,
            b.row_of(i) == i / x,
    ;
    assert(0 <= b.col_of(i) < x && b.row_of(i) * x + b.col_of(i) == i) by (nonlinear_arith)
        requires
            x > 0,
            0 <= i,
            b.row_of(i) == i / x,
            b.col_of(i) == i % x,
    ;
}

/// Every position on the board, and so every one that a neighbour count
/// looks at, has its flat index inside the cell sequence.
pub proof fn lemma_position_in_range(b: Board, r: int, c: int)
    requires
        b.wf(),
        in_bounds(b.x_size as int, b.y_size as int, r, c),
    ensures
        0 <= r * b.x_size + c < b.cells().len(),
{
    let x = b.x_size as int;
    let y = b.y_size as int;
    assert(0 <= r * x + c < x * y) by (nonlinear_arith)
        requires
            0 <= r < y,
            0 <= c < x,
    ;
}

/// On a board of at least two rows and two columns, a corner cell has
/// exactly three cells around it.
pub proof fn lemma_corner_neighbours(b: Board, i: int)
    requires
        b.wf(),
        b.x_size >= 2,
        b.y_size >= 2,
        0 <= i < b.cells().len(),
        is_corner(b.x_size as int, b.y_size as int, b.row_of(i), b.col_of(i)),
    ensures
        neighbour_arity(b.x_size as int, b.y_size as int, b.row_of(i), b.col_of(i)) == 3,
{
    lemma_position_of_index(b, i);
}

/// On a board of at least two rows and two columns, a cell on the border
/// that is no corner has exactly five cells around it.
pub proof fn lemma_edge_neighbours(b: Board, i: int)
    requires
        b.wf(),
        b.x_size >= 2,
        b.y_size >= 2,
        0 <= i < b.cells().len(),
        is_edge(b.x_size as int, b.y_size as int, b.row_of(i), b.col_of(i)),
    ensures
        neighbour_arity(b.x_size as int, b.y_size as int, b.row_of(i), b.col_of(i)) == 5,
{
    lemma_position_of_index(b, i);
}

/// A cell off the border has exactly eight cells around it.
pub proof fn lemma_interior_neighbours(b: Board, i: int)
    requires
        b.wf(),
        0 <= i < b.cells().len(),
        is_interior(b.x_size as int, b.y_size as int, b.row_of(i), b.col_of(i)),
    ensures
        neighbour_arity(b.x_size as int, b.y_size as int, b.row_of(i), b.col_of(i)) == 8,
{
    lemma_position_of_index(b, i);
}

/// A board of dead cells stays as it is: its next generation is all dead.
pub proof fn lemma_dead_board_is_fixed(b: Board)
    requires
        b.wf(),
        forall|i: int| 0 <= i < b.cells().len() ==> #[trigger] b.cells()[i] == CellState::Dead,
    ensures
        b.next_cells() == b.cells(),
{
    assert forall|r: int, c: int| !(#[trigger] b.alive_at(r, c)) by {
        if in_bounds(b.x_size as int, b.y_size as int, r, c) {
            lemma_position_in_range(b, r, c);
        }
    }
    assert(b.next_cells() =~= b.cells());
}

} // verus!
