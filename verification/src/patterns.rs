//! Grids described square by square, and the blinker.

use crate::cell::Cell;
use crate::grid::{
    lemma_index_is_injective, lemma_position_is_square, next_cell, ring_next, ring_prev, Grid,
};
use vstd::prelude::*;

verus! {

/// The cell that is alive exactly if `alive` holds.
pub open spec fn cell_of(alive: bool) -> Cell {
    if alive {
        Cell::Alive
    } else {
        Cell::Dead
    }
}

/// Number of the eight neighbors of `(row, col)`, on the torus of the given
/// dimensions, at which `alive` holds.
pub open spec fn live_around(
    alive: spec_fn(int, int) -> bool,
    width: nat,
    height: nat,
    row: int,
    col: int,
) -> nat {
    let north = ring_prev(row, height);
    let south = ring_next(row, height);
    let west = ring_prev(col, width);
    let east = ring_next(col, width);
    cell_of(alive(north, west)).count() + cell_of(alive(north, col)).count() + cell_of(
        alive(north, east),
    ).count() + cell_of(alive(row, west)).count() + cell_of(alive(row, east)).count() + cell_of(
        alive(south, west),
    ).count() + cell_of(alive(south, col)).count() + cell_of(alive(south, east)).count()
}

/// Whether the square `(row, col)` is alive one step after a generation in
/// which exactly the squares at which `alive` holds were alive.
#[verifier::opaque]
pub open spec fn alive_next(
    alive: spec_fn(int, int) -> bool,
    width: nat,
    height: nat,
    row: int,
    col: int,
) -> bool {
    next_cell(cell_of(alive(row, col)), live_around(alive, width, height, row, col))
        == Cell::Alive
}

impl Grid {
    /// In the current generation exactly the squares at which `alive` holds
    /// are alive.
    pub open spec fn shows(self, alive: spec_fn(int, int) -> bool) -> bool {
        forall|row: int, col: int|
            self.in_bounds(row, col) ==> #[trigger] self.cell_at(row, col) == cell_of(
                alive(row, col),
            )
    }

    /// The current generation of a consistent grid is determined by which of
    /// its squares are alive.
    pub proof fn lemma_shows_determines_cells(self, other: Grid, alive: spec_fn(int, int) -> bool)
        requires
            self.consistent(),
            other.consistent(),
            self.width == other.width,
            self.height == other.height,
            self.shows(alive),
            other.shows(alive),
        ensures
            self.cells == other.cells,
    {
        let w = self.width as int;
        assert forall|i: int| 0 <= i < self.cells.len() implies self.cells[i] == other.cells[i] by {
            lemma_position_is_square(self.width, self.height, i);
            assert(self.cell_at(i / w, i % w) == cell_of(alive(i / w, i % w)));
            assert(other.cell_at(i / w, i % w) == cell_of(alive(i / w, i % w)));
        }
        assert(self.cells =~= other.cells);
    }

    /// The neighbor count of a square, from which squares are alive.
    pub proof fn lemma_neighbor_count_shows(
        self,
        alive: spec_fn(int, int) -> bool,
        row: int,
        col: int,
    )
        requires
            self.in_bounds(row, col),
            self.shows(alive),
        ensures
            self.neighbor_count(row, col) == live_around(
                alive,
                self.width,
                self.height,
                row,
                col,
            ),
    {
        let north = self.north(row);
        let south = self.south(row);
        let west = self.west(col);
        let east = self.east(col);
        assert(self.cell_at(north, west) == cell_of(alive(north, west)));
        assert(self.cell_at(north, col) == cell_of(alive(north, col)));
        assert(self.cell_at(north, east) == cell_of(alive(north, east)));
        assert(self.cell_at(row, west) == cell_of(alive(row, west)));
        assert(self.cell_at(row, east) == cell_of(alive(row, east)));
        assert(self.cell_at(south, west) == cell_of(alive(south, west)));
        assert(self.cell_at(south, col) == cell_of(alive(south, col)));
        assert(self.cell_at(south, east) == cell_of(alive(south, east)));
    }

    /// A step of the game on a consistent grid, square by square: a square is
    /// alive after the step exactly if the rule makes it so for its state and
    /// its live neighbors before the step.
    pub proof fn lemma_tick_shows(self, alive: spec_fn(int, int) -> bool)
        requires
            self.consistent(),
            self.shows(alive),
        ensures
            self.tick().shows(
                |row: int, col: int| alive_next(alive, self.width, self.height, row, col),
            ),
    {
        let after = |row: int, col: int| alive_next(alive, self.width, self.height, row, col);
        let next = self.tick();
        assert forall|row: int, col: int| self.in_bounds(row, col) implies #[trigger] next.cell_at(
            row,
            col,
        ) == cell_of(after(row, col)) by {
            reveal(alive_next);
            self.lemma_tick_at(row, col);
            self.lemma_neighbor_count_shows(alive, row, col);
        }
    }

    /// Two descriptions that agree on every square of the grid describe the
    /// same generation.
    pub proof fn lemma_shows_equivalent(
        self,
        alive: spec_fn(int, int) -> bool,
        same: spec_fn(int, int) -> bool,
    )
        requires
            self.shows(alive),
            forall|row: int, col: int|
                self.in_bounds(row, col) ==> alive(row, col) == #[trigger] same(row, col),
        ensures
            self.shows(same),
    {
        assert forall|row: int, col: int| self.in_bounds(row, col) implies #[trigger] self.cell_at(
            row,
            col,
        ) == cell_of(same(row, col)) by {
            assert(alive(row, col) == same(row, col));
        }
    }

    /// Writing a cell at a square of a consistent grid changes the state of
    /// that square and of no other: the grid then shows any description that
    /// says of the written square whether `cell` is alive, and of every other
    /// square what held of it before.
    pub proof fn lemma_set_cell_shows(
        self,
        alive: spec_fn(int, int) -> bool,
        cell: Cell,
        row: int,
        col: int,
        after: spec_fn(int, int) -> bool,
    )
        requires
            self.consistent(),
            self.in_bounds(row, col),
            self.shows(alive),
            after(row, col) == (cell == Cell::Alive),
            forall|r: int, c: int|
                self.in_bounds(r, c) && !(r == row && c == col) ==> #[trigger] after(r, c)
                    == alive(r, c),
        ensures
            self.set_cell(cell, row, col).consistent(),
            self.set_cell(cell, row, col).shows(after),
    {
        let written = self.set_cell(cell, row, col);
        self.lemma_index_in_range(row, col);
        assert forall|r: int, c: int| written.in_bounds(r, c) implies #[trigger] written.cell_at(
            r,
            c,
        ) == cell_of(after(r, c)) by {
            self.lemma_index_in_range(r, c);
            if self.index(r, c) == self.index(row, col) {
                lemma_index_is_injective(self.width, r, c, row, col);
            } else {
                assert(written.cell_at(r, c) == self.cell_at(r, c));
                assert(after(r, c) == alive(r, c));
            }
        }
    }

    /// The blank grid of the given dimensions with a row of three live cells
    /// written into it, the middle one at `(row, col)`.
    pub open spec fn blinker(width: nat, height: nat, row: int, col: int) -> Grid {
        Grid::blank(width, height).set_cell(Cell::Alive, row, ring_prev(col, width)).set_cell(
            Cell::Alive,
            row,
            col,
        ).set_cell(Cell::Alive, row, ring_next(col, width))
    }
}

/// Whether `(r, c)` is one of the three squares of the row of three whose
/// middle is `(row, col)`.
pub open spec fn lies(width: nat, row: int, col: int, r: int, c: int) -> bool {
    r == row && (c == ring_prev(col, width) || c == col || c == ring_next(col, width))
}

/// Whether `(r, c)` is one of the three squares of the column of three whose
/// middle is `(row, col)`.
pub open spec fn stands(height: nat, row: int, col: int, r: int, c: int) -> bool {
    c == col && (r == ring_prev(row, height) || r == row || r == ring_next(row, height))
}

/// On a torus of at least four rows and four columns, the squares that are
/// alive one step after a row of three are those of the column of three
/// around the same middle square.
pub proof fn lemma_row_stands_up(width: nat, height: nat, row: int, col: int, r: int, c: int)
    requires
        width >= 4,
        height >= 4,
        0 <= row < height,
        0 <= col < width,
        0 <= r < height,
        0 <= c < width,
    ensures
        alive_next(|r: int, c: int| lies(width, row, col, r, c), width, height, r, c) == stands(
            height,
            row,
            col,
            r,
            c,
        ),
{
    reveal(alive_next);
}

/// On a torus of at least four rows and four columns, the squares that are
/// alive one step after a column of three are those of the row of three
/// around the same middle square.
pub proof fn lemma_column_lies_down(width: nat, height: nat, row: int, col: int, r: int, c: int)
    requires
        width >= 4,
        height >= 4,
        0 <= row < height,
        0 <= col < width,
        0 <= r < height,
        0 <= c < width,
    ensures
        alive_next(|r: int, c: int| stands(height, row, col, r, c), width, height, r, c) == lies(
            width,
            row,
            col,
            r,
            c,
        ),
{
    reveal(alive_next);
}

/// The blinker shows its row of three and nothing else.
pub proof fn lemma_blinker_shows_row(width: nat, height: nat, row: int, col: int)
    requires
        0 <= row < height,
        0 <= col < width,
    ensures
        Grid::blinker(width, height, row, col).consistent(),
        Grid::blinker(width, height, row, col).shows(
            |r: int, c: int| lies(width, row, col, r, c),
        ),
{
    let west = ring_prev(col, width);
    let east = ring_next(col, width);
    let blank = Grid::blank(width, height);
    let none = |r: int, c: int| false;
    let one = |r: int, c: int| r == row && c == west;
    let two = |r: int, c: int| r == row && (c == west || c == col);
    let three = |r: int, c: int| lies(width, row, col, r, c);
    assert(blank.shows(none)) by {
        assert forall|r: int, c: int| blank.in_bounds(r, c) implies #[trigger] blank.cell_at(r, c)
            == Cell::Dead by {
            blank.lemma_index_in_range(r, c);
        }
    }
    let first = blank.set_cell(Cell::Alive, row, west);
    let second = first.set_cell(Cell::Alive, row, col);
    blank.lemma_set_cell_shows(none, Cell::Alive, row, west, one);
    first.lemma_set_cell_shows(one, Cell::Alive, row, col, two);
    second.lemma_set_cell_shows(two, Cell::Alive, row, east, three);
}

/// A row of three live cells on an otherwise dead grid of at least four rows
/// and four columns is an oscillator of period two: one step turns it into a
/// column of three around the same middle square, and the next step turns it
/// back.
pub proof fn lemma_blinker_has_period_two(width: nat, height: nat, row: int, col: int)
    requires
        width >= 4,
        height >= 4,
        0 <= row < height,
        0 <= col < width,
    ensures
        Grid::blinker(width, height, row, col).shows(
            |r: int, c: int| lies(width, row, col, r, c),
        ),
        Grid::blinker(width, height, row, col).tick().shows(
            |r: int, c: int| stands(height, row, col, r, c),
        ),
        Grid::blinker(width, height, row, col).tick().tick() == Grid::blinker(
            width,
            height,
            row,
            col,
        ),
        Grid::blinker(width, height, row, col).ticks(2) == Grid::blinker(width, height, row, col),
{
    let lying = |r: int, c: int| lies(width, row, col, r, c);
    let standing = |r: int, c: int| stands(height, row, col, r, c);
    let start = Grid::blinker(width, height, row, col);
    lemma_blinker_shows_row(width, height, row, col);

    // One step stands the row up.
    let middle = start.tick();
    start.lemma_tick_shows(lying);
    assert forall|r: int, c: int| middle.in_bounds(r, c) implies alive_next(
        lying,
        width,
        height,
        r,
        c,
    ) == #[trigger] standing(r, c) by {
        lemma_row_stands_up(width, height, row, col, r, c);
    }
    middle.lemma_shows_equivalent(
        |r: int, c: int| alive_next(lying, width, height, r, c),
        standing,
    );

    // The next step lays the column down again.
    let end = middle.tick();
    middle.lemma_tick_shows(standing);
    assert forall|r: int, c: int| end.in_bounds(r, c) implies alive_next(
        standing,
        width,
        height,
        r,
        c,
    ) == #[trigger] lying(r, c) by {
        lemma_column_lies_down(width, height, row, col, r, c);
    }
    end.lemma_shows_equivalent(
        |r: int, c: int| alive_next(standing, width, height, r, c),
        lying,
    );
    end.lemma_shows_determines_cells(start, lying);

    assert(start.ticks(2) == end) by {
        reveal_with_fuel(Grid::ticks, 3);
    }
}

} // verus!
