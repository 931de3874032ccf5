//! The mathematical model of a universe, and the rules of the game stated
//! over it.

use crate::cell::Cell;
use vstd::arithmetic::div_mod::{
    lemma_div_pos_is_pos, lemma_fundamental_div_mod, lemma_fundamental_div_mod_converse,
    lemma_mod_bound, lemma_multiply_divide_lt,
};
use vstd::prelude::*;

verus! {

/// Position of `(row, col)` in a row-major buffer whose rows hold `width`
/// cells.
pub open spec fn flat_index(width: nat, row: int, col: int) -> int {
    row * width + col
}

/// The position before `i` on a ring of `n` positions: before the first
/// position comes the last.
pub open spec fn ring_prev(i: int, n: nat) -> int {
    if i == 0 {
        n - 1
    } else {
        i - 1
    }
}

/// The position after `i` on a ring of `n` positions: after the last position
/// comes the first.
pub open spec fn ring_next(i: int, n: nat) -> int {
    if i == n - 1 {
        0
    } else {
        i + 1
    }
}

/// The state that a cell with `neighbors` live neighbors takes in the next
/// generation: a cell is born on exactly three live neighbors, a live cell
/// survives on two or three, and every other cell is dead.
pub open spec fn next_cell(cell: Cell, neighbors: nat) -> Cell {
    if neighbors == 3 || (cell == Cell::Alive && neighbors == 2) {
        Cell::Alive
    } else {
        Cell::Dead
    }
}

/// The state that seeding gives to the cell at position `i` of the buffer:
/// alive where `i` is a multiple of 2 or of 7, dead elsewhere.
pub open spec fn seed_cell(i: int) -> Cell {
    if i % 2 == 0 || i % 7 == 0 {
        Cell::Alive
    } else {
        Cell::Dead
    }
}

/// A universe as a mathematical value.
pub struct Grid {
    /// Number of columns.
    pub width: nat,
    /// Number of rows.
    pub height: nat,
    /// The current generation, row by row.
    pub cells: Seq<Cell>,
    /// The configuration that a reset rewinds to, row by row.
    pub initial_state: Seq<Cell>,
}

impl Grid {
    /// Both buffers hold exactly `width * height` cells.
    pub open spec fn consistent(self) -> bool {
        &&& self.cells.len() == self.width * self.height
        &&& self.initial_state.len() == self.width * self.height
    }

    /// `(row, col)` names a square of the grid.
    pub open spec fn in_bounds(self, row: int, col: int) -> bool {
        0 <= row < self.height && 0 <= col < self.width
    }

    /// Position of `(row, col)` in the buffers.
    pub open spec fn index(self, row: int, col: int) -> int {
        flat_index(self.width, row, col)
    }

    /// The cell of the current generation at `(row, col)`.
    pub open spec fn cell_at(self, row: int, col: int) -> Cell {
        self.cells[self.index(row, col)]
    }

    /// The row above `row`; above the top row lies the bottom row.
    pub open spec fn north(self, row: int) -> int {
        ring_prev(row, self.height)
    }

    /// The row below `row`; below the bottom row lies the top row.
    pub open spec fn south(self, row: int) -> int {
        ring_next(row, self.height)
    }

    /// The column left of `col`; left of the first column lies the last.
    pub open spec fn west(self, col: int) -> int {
        ring_prev(col, self.width)
    }

    /// The column right of `col`; right of the last column lies the first.
    pub open spec fn east(self, col: int) -> int {
        ring_next(col, self.width)
    }

    /// Number of live cells among the eight neighbors of `(row, col)` on the
    /// torus. On a grid with fewer than three rows or columns some of the
    /// eight positions coincide, with each other or with `(row, col)` itself,
    /// and such a cell is counted once for each position it takes.
    pub open spec fn neighbor_count(self, row: int, col: int) -> nat {
        self.cell_at(self.north(row), self.west(col)).count()
            + self.cell_at(self.north(row), col).count()
            + self.cell_at(self.north(row), self.east(col)).count()
            + self.cell_at(row, self.west(col)).count()
            + self.cell_at(row, self.east(col)).count()
            + self.cell_at(self.south(row), self.west(col)).count()
            + self.cell_at(self.south(row), col).count()
            + self.cell_at(self.south(row), self.east(col)).count()
    }

    /// The grid of the given dimensions on which every cell is dead, in the
    /// current generation and in the configuration that a reset rewinds to.
    pub open spec fn blank(width: nat, height: nat) -> Grid {
        Grid {
            width,
            height,
            cells: Seq::new(width * height, |i: int| Cell::Dead),
            initial_state: Seq::new(width * height, |i: int| Cell::Dead),
        }
    }

    /// The grid after seeding: `width * height` cells, each in the state that
    /// [`seed_cell`] gives to its position, as the current generation and as
    /// the configuration that a reset rewinds to.
    pub open spec fn random(self) -> Grid {
        Grid {
            cells: Seq::new(self.width * self.height, |i: int| seed_cell(i)),
            initial_state: Seq::new(self.width * self.height, |i: int| seed_cell(i)),
            ..self
        }
    }

    /// The grid after clearing: the blank grid of the same dimensions.
    pub open spec fn empty(self) -> Grid {
        Grid::blank(self.width, self.height)
    }

    /// The grid after a reset: the current generation is the saved
    /// configuration.
    pub open spec fn reset(self) -> Grid {
        Grid { cells: self.initial_state, ..self }
    }

    /// The grid after writing `cell` at `(row, col)`, into the current
    /// generation and into the configuration that a reset rewinds to.
    pub open spec fn set_cell(self, cell: Cell, row: int, col: int) -> Grid {
        Grid {
            cells: self.cells.update(self.index(row, col), cell),
            initial_state: self.initial_state.update(self.index(row, col), cell),
            ..self
        }
    }

    /// The grid after flipping the cell of the current generation at
    /// `(row, col)` and writing its new state into the configuration that a
    /// reset rewinds to.
    pub open spec fn toggle_cell(self, row: int, col: int) -> Grid {
        self.set_cell(self.cell_at(row, col).toggled(), row, col)
    }

    /// The generation that follows the current one: every cell takes the
    /// state that the rule gives it for its neighbors in the current
    /// generation.
    pub open spec fn next_generation(self) -> Seq<Cell> {
        Seq::new(
            self.cells.len(),
            |i: int|
                next_cell(
                    self.cells[i],
                    self.neighbor_count(i / (self.width as int), i % (self.width as int)),
                ),
        )
    }

    /// The grid after one step of the game. The configuration that a reset
    /// rewinds to stays as it is.
    pub open spec fn tick(self) -> Grid {
        Grid { cells: self.next_generation(), ..self }
    }

    /// The grid after `n` steps of the game.
    pub open spec fn ticks(self, n: nat) -> Grid
        decreases n,
    {
        if n == 0 {
            self
        } else {
            self.ticks((n - 1) as nat).tick()
        }
    }

    /// Every cell of the current generation is dead.
    pub open spec fn all_dead(self) -> bool {
        forall|i: int| 0 <= i < self.cells.len() ==> self.cells[i] == Cell::Dead
    }
}

/// The row and the column of a square are the quotient and the remainder of
/// its position by the width.
pub proof fn lemma_index_row_col(width: nat, row: int, col: int)
    requires
        0 <= col < width,
    ensures
        flat_index(width, row, col) / (width as int) == row,
        flat_index(width, row, col) % (width as int) == col,
{
    lemma_fundamental_div_mod_converse(flat_index(width, row, col), width as int, row, col);
}

/// Every position below `width * height` is the position of one square: the
/// one whose row and column are the quotient and the remainder of the
/// position by the width.
pub proof fn lemma_position_is_square(width: nat, height: nat, i: int)
    requires
        0 <= i < width * height,
    ensures
        0 <= i / (width as int) < height,
        0 <= i % (width as int) < width,
        flat_index(width, i / (width as int), i % (width as int)) == i,
{
    let w = width as int;
    assert(w > 0) by (nonlinear_arith)
        requires
            0 <= i < w * height,
            0 <= w,
    ;
    lemma_fundamental_div_mod(i, w);
    lemma_mod_bound(i, w);
    lemma_div_pos_is_pos(i, w);
    lemma_multiply_divide_lt(i, w, height as int);
    assert(w * (i / w) == (i / w) * w) by (nonlinear_arith);
}

/// Two squares with the same position in the buffers are the same square.
pub proof fn lemma_index_is_injective(width: nat, row1: int, col1: int, row2: int, col2: int)
    requires
        0 <= col1 < width,
        0 <= col2 < width,
        flat_index(width, row1, col1) == flat_index(width, row2, col2),
    ensures
        row1 == row2,
        col1 == col2,
{
    lemma_index_row_col(width, row1, col1);
    lemma_index_row_col(width, row2, col2);
}

impl Grid {
    /// On a consistent grid every square has its own position in the buffers.
    pub proof fn lemma_index_in_range(self, row: int, col: int)
        requires
            self.consistent(),
            self.in_bounds(row, col),
        ensures
            0 <= self.index(row, col) < self.cells.len(),
            self.index(row, col) < self.initial_state.len(),
            self.index(row, col) < self.width * self.height,
    {
        let w = self.width as int;
        let h = self.height as int;
        assert(0 <= row * w && row * w + w <= h * w) by (nonlinear_arith)
            requires
                0 <= row < h,
                0 <= w,
        ;
    }

    /// A step of the game gives the square at `(row, col)` the state that the
    /// rule prescribes for its cell and its neighbor count.
    pub proof fn lemma_tick_at(self, row: int, col: int)
        requires
            self.consistent(),
            self.in_bounds(row, col),
        ensures
            self.tick().cell_at(row, col) == next_cell(
                self.cell_at(row, col),
                self.neighbor_count(row, col),
            ),
    {
        self.lemma_index_in_range(row, col);
        lemma_index_row_col(self.width, row, col);
    }
}

} // verus!
