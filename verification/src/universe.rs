//! The universe: the executable grid, specified against [`Grid`].

use crate::cell::Cell;
use crate::grid::{
    lemma_index_is_injective, lemma_position_is_square, next_cell, seed_cell, Grid,
};
use vstd::prelude::*;

verus! {

/// The width and the height of a universe made without one.
pub const DEFAULT_SIZE: u32 = 64;

/// A buffer of `len` dead cells.
fn dead_cells(len: usize) -> (cells: Vec<Cell>)
    ensures
        cells@ == Seq::new(len as nat, |i: int| Cell::Dead),
{
    let mut cells: Vec<Cell> = Vec::new();
    for i in 0..len
        invariant
            cells@ == Seq::new(i as nat, |i: int| Cell::Dead),
    {
        cells.push(Cell::Dead);
    }
    cells
}

/// A buffer of `len` cells in which the cell at each position has the state
/// that seeding gives to it.
fn seeded_cells(len: usize) -> (cells: Vec<Cell>)
    ensures
        cells@ == Seq::new(len as nat, |i: int| seed_cell(i)),
{
    let mut cells: Vec<Cell> = Vec::new();
    for i in 0..len
        invariant
            cells@ == Seq::new(i as nat, |i: int| seed_cell(i)),
    {
        cells.push(
            if i % 2 == 0 || i % 7 == 0 {
                Cell::Alive
            } else {
                Cell::Dead
            },
        );
    }
    cells
}

/// A grid of [`Cell`]s together with the configuration that
/// [`Universe::reset`] rewinds to.
pub struct Universe {
    width: u32,
    height: u32,
    cells: Vec<Cell>,
    initial_state: Vec<Cell>,
}

impl View for Universe {
    type V = Grid;

    closed spec fn view(&self) -> Grid {
        Grid {
            width: self.width as nat,
            height: self.height as nat,
            cells: self.cells@,
            initial_state: self.initial_state@,
        }
    }
}

impl Universe {
    /// Creates a universe of the given width and height, each of which is
    /// [`DEFAULT_SIZE`] where `None` is passed, with every cell dead. A width
    /// or a height of zero gives a universe without cells.
    pub fn new(width: Option<u32>, height: Option<u32>) -> (universe: Universe)
        requires
            width.unwrap_or(DEFAULT_SIZE) * height.unwrap_or(DEFAULT_SIZE) <= usize::MAX,
        ensures
            universe@ == Grid::blank(
                width.unwrap_or(DEFAULT_SIZE) as nat,
                height.unwrap_or(DEFAULT_SIZE) as nat,
            ),
            universe@.consistent(),
    {
        let width = width.unwrap_or(DEFAULT_SIZE);
        let height = height.unwrap_or(DEFAULT_SIZE);

        let cells = dead_cells(width as usize * height as usize);

        Universe { width, height, cells: cells.clone(), initial_state: cells }
    }

    /// Seeds the universe: the cell at position `i` of the buffer is alive
    /// where `i` is a multiple of 2 or of 7 and dead elsewhere. The result is
    /// also the configuration that a reset rewinds to.
    pub fn random(&mut self)
        requires
            old(self)@.width * old(self)@.height <= usize::MAX,
        ensures
            final(self)@ == old(self)@.random(),
            final(self)@.initial_state == final(self)@.cells,
            final(self)@.consistent(),
    {
        self.cells = seeded_cells(self.width as usize * self.height as usize);
        self.initial_state = self.cells.clone();
    }

    /// Makes every cell dead, in the current generation and in the
    /// configuration that a reset rewinds to.
    pub fn empty(&mut self)
        requires
            old(self)@.width * old(self)@.height <= usize::MAX,
        ensures
            final(self)@ == old(self)@.empty(),
            final(self)@.consistent(),
    {
        self.cells = dead_cells(self.width as usize * self.height as usize);
        self.initial_state = self.cells.clone();
    }

    /// Rewinds the current generation to the saved configuration.
    pub fn reset(&mut self)
        ensures
            final(self)@ == old(self)@.reset(),
            old(self)@.consistent() ==> final(self)@.consistent(),
    {
        self.cells = self.initial_state.clone();
    }

    /// Number of columns.
    pub fn get_width(&self) -> (width: u32)
        ensures
            width == self@.width,
    {
        self.width
    }

    /// Sets the number of columns and leaves the buffers as they are.
    pub fn set_width(&mut self, width: u32)
        ensures
            final(self)@ == (Grid { width: width as nat, ..old(self)@ }),
    {
        self.width = width;
    }

    /// Number of rows.
    pub fn get_height(&self) -> (height: u32)
        ensures
            height == self@.height,
    {
        self.height
    }

    /// Sets the number of rows and leaves the buffers as they are.
    pub fn set_height(&mut self, height: u32)
        ensures
            final(self)@ == (Grid { height: height as nat, ..old(self)@ }),
    {
        self.height = height;
    }

    /// The configuration that a reset rewinds to, row by row.
    pub fn get_initial_state(&self) -> (cells: &[Cell])
        ensures
            cells@ == self@.initial_state,
    {
        self.initial_state.as_slice()
    }

    /// The current generation, row by row.
    pub fn get_cells(&self) -> (cells: &[Cell])
        ensures
            cells@ == self@.cells,
    {
        self.cells.as_slice()
    }

    /// Writes `cell` at `(row, col)`, into the current generation and into the
    /// configuration that a reset rewinds to.
    pub fn set_cell(&mut self, cell: Cell, row: u32, col: u32)
        requires
            old(self)@.consistent(),
            old(self)@.in_bounds(row as int, col as int),
        ensures
            final(self)@ == old(self)@.set_cell(cell, row as int, col as int),
            final(self)@.consistent(),
    {
        let idx = self.get_index(row, col);
        self.cells[idx] = cell;
        self.initial_state[idx] = cell;
    }

    /// Flips the cell at `(row, col)` of the current generation and writes its
    /// new state into the configuration that a reset rewinds to.
    pub fn toggle_cell(&mut self, row: u32, col: u32)
        requires
            old(self)@.consistent(),
            old(self)@.in_bounds(row as int, col as int),
        ensures
            final(self)@ == old(self)@.toggle_cell(row as int, col as int),
            final(self)@.consistent(),
    {
        let idx = self.get_index(row, col);
        self.cells[idx].toggle();
        self.initial_state[idx] = self.cells[idx];
    }

    /// Whether both buffers hold exactly `width * height` cells. This is so
    /// from the creation of the universe on, until a dimension is set to a
    /// value that changes the product, and again after the next seeding or
    /// clearing. The operations that address a square are defined on a
    /// consistent universe only.
    pub fn is_consistent(&self) -> (consistent: bool)
        ensures
            consistent == self@.consistent(),
    {
        assert(self.width * self.height <= u64::MAX) by (nonlinear_arith)
            requires
                self.width <= u32::MAX,
                self.height <= u32::MAX,
        ;
        let len = self.width as u64 * self.height as u64;
        self.cells.len() as u64 == len && self.initial_state.len() as u64 == len
    }

    /// Position of `(row, col)` in the cell buffers.
    pub fn get_index(&self, row: u32, col: u32) -> (idx: usize)
        requires
            self@.consistent(),
            self@.in_bounds(row as int, col as int),
        ensures
            idx == self@.index(row as int, col as int),
            idx < self@.cells.len(),
            idx < self@.initial_state.len(),
    {
        proof {
            self@.lemma_index_in_range(row as int, col as int);
            assert(0 <= row * self.width) by (nonlinear_arith);
            assert(row * self.width + col == self@.index(row as int, col as int));
            assert(self@.cells.len() == self.cells.len());
        }
        row as usize * self.width as usize + col as usize
    }

    /// What the cell at `(row, col)` adds to a neighbor count.
    fn count_at(&self, row: u32, col: u32) -> (n: u8)
        requires
            self@.consistent(),
            self@.in_bounds(row as int, col as int),
        ensures
            n == self@.cell_at(row as int, col as int).count(),
            n <= 1,
    {
        let idx = self.get_index(row, col);
        self.cells[idx].as_count()
    }

    /// Counts the live cells among the eight neighbors of `(row, col)`,
    /// where the grid wraps around at every edge.
    pub fn count_number_of_neighbors(&self, row: u32, col: u32) -> (count: u8)
        requires
            self@.consistent(),
            self@.in_bounds(row as int, col as int),
        ensures
            count == self@.neighbor_count(row as int, col as int),
            count <= 8,
    {
        let mut count: u8 = 0;

        let north: u32 = if row == 0 { self.height - 1 } else { row - 1 };
        let east: u32 = if col == self.width - 1 { 0 } else { col + 1 };
        let south: u32 = if row == self.height - 1 { 0 } else { row + 1 };
        let west: u32 = if col == 0 { self.width - 1 } else { col - 1 };

        assert(north == self@.north(row as int) && south == self@.south(row as int));
        assert(west == self@.west(col as int) && east == self@.east(col as int));

        count += self.count_at(north, west);
        count += self.count_at(north, col);
        count += self.count_at(north, east);
        count += self.count_at(row, west);
        count += self.count_at(row, east);
        count += self.count_at(south, west);
        count += self.count_at(south, col);
        count += self.count_at(south, east);

        count
    }

    /// Replaces the current generation by the one that follows it under the
    /// rules of the game. Every cell is judged by the generation before the
    /// step, and the configuration that a reset rewinds to is not touched.
    pub fn tick(&mut self)
        requires
            old(self)@.consistent(),
        ensures
            final(self)@ == old(self)@.tick(),
            forall|row: int, col: int|
                old(self)@.in_bounds(row, col) ==> #[trigger] final(self)@.cell_at(row, col)
                    == next_cell(
                    old(self)@.cell_at(row, col),
                    old(self)@.neighbor_count(row, col),
                ),
            final(self)@.initial_state == old(self)@.initial_state,
            final(self)@.consistent(),
    {
        let ghost before = self@;
        let mut next_state = self.cells.clone();

        for row in 0..self.height
            invariant
                self@ == before,
                before.consistent(),
                next_state@.len() == before.cells.len(),
                forall|r: int, c: int|
                    0 <= r < row && 0 <= c < before.width ==> next_state@[before.index(r, c)]
                        == #[trigger] before.tick().cell_at(r, c),
        {
            for col in 0..self.width
                invariant
                    self@ == before,
                    before.consistent(),
                    row < before.height,
                    next_state@.len() == before.cells.len(),
                    forall|r: int, c: int|
                        0 <= c < before.width && (0 <= r < row || (r == row && c < col))
                            ==> next_state@[before.index(r, c)]
                            == #[trigger] before.tick().cell_at(r, c),
            {
                let idx = self.get_index(row, col);
                let number_of_neighbors = self.count_number_of_neighbors(row, col);

                let next = match (self.cells[idx], number_of_neighbors) {
                    (Cell::Alive, x) if x < 2 => Cell::Dead,
                    (Cell::Alive, 2) | (Cell::Alive, 3) => Cell::Alive,
                    (Cell::Alive, x) if x > 3 => Cell::Dead,
                    (Cell::Dead, 3) => Cell::Alive,
                    (otherwise, _) => otherwise,
                };
                let ghost filled = next_state@;
                next_state[idx] = next;

                proof {
                    before.lemma_tick_at(row as int, col as int);
                    assert(next == before.tick().cell_at(row as int, col as int));
                    assert forall|r: int, c: int|
                        0 <= c < before.width && (0 <= r < row || (r == row && c < col + 1))
                        implies next_state@[before.index(r, c)]
                        == #[trigger] before.tick().cell_at(r, c) by {
                        if r == row && c == col {
                        } else {
                            before.lemma_index_in_range(r, c);
                            if before.index(r, c) == idx {
                                lemma_index_is_injective(
                                    before.width,
                                    r,
                                    c,
                                    row as int,
                                    col as int,
                                );
                            }
                            assert(next_state@[before.index(r, c)] == filled[before.index(r, c)]);
                        }
                    }
                }
            }
        }
        proof {
            assert forall|i: int| 0 <= i < next_state@.len() implies next_state@[i]
                == before.next_generation()[i] by {
                let r = i / (before.width as int);
                let c = i % (before.width as int);
                lemma_position_is_square(before.width, before.height, i);
                assert(next_state@[before.index(r, c)] == before.tick().cell_at(r, c));
            }
            assert(next_state@ =~= before.next_generation());
            let after = before.tick();
            assert forall|row: int, col: int|
                before.in_bounds(row, col) implies #[trigger] after.cell_at(row, col) == next_cell(
                before.cell_at(row, col),
                before.neighbor_count(row, col),
            ) by {
                before.lemma_tick_at(row, col);
            }
        }
        self.cells = next_state;
    }
}

} // verus!
