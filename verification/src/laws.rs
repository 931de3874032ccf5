//! Laws of the game, proved over the model of the universe.

use crate::cell::Cell;
use crate::grid::{lemma_position_is_square, next_cell, ring_next, ring_prev, Grid};
use vstd::arithmetic::div_mod::{
    lemma_mod_add_multiples_vanish, lemma_mod_self_0, lemma_small_mod,
};
use vstd::prelude::*;

verus! {

/// Toggling a cell twice gives the cell back.
pub proof fn lemma_toggle_twice(cell: Cell)
    ensures
        cell.toggled().toggled() == cell,
{
}

/// The rule of the game, case by case: a live cell with fewer than two live
/// neighbors dies, one with two or three lives on, one with more than three
/// dies; a dead cell with exactly three live neighbors comes to life, and
/// any other dead cell stays dead.
pub proof fn lemma_rule_by_cases(neighbors: nat)
    ensures
        neighbors < 2 ==> next_cell(Cell::Alive, neighbors) == Cell::Dead,
        neighbors == 2 || neighbors == 3 ==> next_cell(Cell::Alive, neighbors) == Cell::Alive,
        neighbors > 3 ==> next_cell(Cell::Alive, neighbors) == Cell::Dead,
        neighbors == 3 ==> next_cell(Cell::Dead, neighbors) == Cell::Alive,
        neighbors != 3 ==> next_cell(Cell::Dead, neighbors) == Cell::Dead,
{
}

/// A ring of `n` positions is the integers modulo `n`: the neighbors of a
/// position are again positions of the ring, one less and one more than it
/// modulo `n`.
pub proof fn lemma_ring_is_modular(i: int, n: nat)
    requires
        0 <= i < n,
    ensures
        0 <= ring_prev(i, n) < n,
        0 <= ring_next(i, n) < n,
        ring_prev(i, n) == (i - 1) % (n as int),
        ring_next(i, n) == (i + 1) % (n as int),
{
    if i == 0 {
        lemma_mod_add_multiples_vanish(-1, n as int);
        lemma_small_mod((n - 1) as nat, n);
    } else {
        lemma_small_mod((i - 1) as nat, n);
    }
    if i == n - 1 {
        lemma_mod_self_0(n as int);
    } else {
        lemma_small_mod((i + 1) as nat, n);
    }
}

/// No square has more than eight live neighbors.
pub proof fn lemma_neighbor_count_bound(grid: Grid, row: int, col: int)
    ensures
        grid.neighbor_count(row, col) <= 8,
{
}

/// Writing a cell at an addressable square puts it at position
/// `row * width + col` of both buffers and changes no other position, and
/// flipping a square writes there the opposite of the cell of the current
/// generation.
pub proof fn lemma_edit_writes_both_buffers(grid: Grid, cell: Cell, row: int, col: int)
    requires
        grid.consistent(),
        grid.in_bounds(row, col),
    ensures
        grid.set_cell(cell, row, col).cells[row * grid.width + col] == cell,
        grid.set_cell(cell, row, col).initial_state[row * grid.width + col] == cell,
        forall|i: int|
            0 <= i < grid.cells.len() && i != row * grid.width + col ==> {
                &&& grid.set_cell(cell, row, col).cells[i] == grid.cells[i]
                &&& grid.set_cell(cell, row, col).initial_state[i] == grid.initial_state[i]
            },
        grid.toggle_cell(row, col) == grid.set_cell(
            grid.cells[row * grid.width + col].toggled(),
            row,
            col,
        ),
        grid.set_cell(cell, row, col).consistent(),
{
    grid.lemma_index_in_range(row, col);
}

/// Flipping a square twice restores the current generation, and leaves in the
/// configuration that a reset rewinds to the cell that the current generation
/// has at that square.
pub proof fn lemma_toggle_cell_twice(grid: Grid, row: int, col: int)
    requires
        grid.consistent(),
        grid.in_bounds(row, col),
    ensures
        grid.toggle_cell(row, col).toggle_cell(row, col).cells == grid.cells,
        grid.toggle_cell(row, col).toggle_cell(row, col).initial_state
            == grid.initial_state.update(grid.index(row, col), grid.cell_at(row, col)),
{
    grid.lemma_index_in_range(row, col);
    let twice = grid.toggle_cell(row, col).toggle_cell(row, col);
    assert(twice.cells =~= grid.cells);
    assert(twice.initial_state =~= grid.initial_state.update(
        grid.index(row, col),
        grid.cell_at(row, col),
    ));
}

/// However many steps are taken, the dimensions of the grid, the number of
/// its cells and the configuration that a reset rewinds to stay as they are.
pub proof fn lemma_ticks_keep_saved_configuration(grid: Grid, n: nat)
    ensures
        grid.ticks(n).width == grid.width,
        grid.ticks(n).height == grid.height,
        grid.ticks(n).cells.len() == grid.cells.len(),
        grid.ticks(n).initial_state == grid.initial_state,
        grid.consistent() ==> grid.ticks(n).consistent(),
    decreases n,
{
    if n > 0 {
        lemma_ticks_keep_saved_configuration(grid, (n - 1) as nat);
    }
}

/// A reset discards every step taken since the configuration was saved: after
/// any number of steps it gives the grid that a reset before them would have
/// given.
pub proof fn lemma_reset_discards_ticks(grid: Grid, n: nat)
    ensures
        grid.ticks(n).reset() == grid.reset(),
{
    lemma_ticks_keep_saved_configuration(grid, n);
}

/// After seeding or clearing, and on a blank grid, a reset that follows any
/// number of steps restores the grid exactly.
pub proof fn lemma_reset_restores_seed(grid: Grid, n: nat)
    ensures
        grid.random().ticks(n).reset() == grid.random(),
        grid.empty().ticks(n).reset() == grid.empty(),
        Grid::blank(grid.width, grid.height).ticks(n).reset() == Grid::blank(
            grid.width,
            grid.height,
        ),
{
    lemma_reset_discards_ticks(grid.random(), n);
    lemma_reset_discards_ticks(grid.empty(), n);
}

/// After a cell was written or flipped, a reset that follows any number of
/// steps restores the written state at its square, and the saved
/// configuration everywhere.
pub proof fn lemma_reset_restores_edit(grid: Grid, cell: Cell, row: int, col: int, n: nat)
    requires
        grid.consistent(),
        grid.in_bounds(row, col),
    ensures
        grid.set_cell(cell, row, col).ticks(n).reset().cell_at(row, col) == cell,
        grid.set_cell(cell, row, col).ticks(n).reset().cells == grid.set_cell(
            cell,
            row,
            col,
        ).initial_state,
        grid.toggle_cell(row, col).ticks(n).reset().cell_at(row, col) == grid.cell_at(
            row,
            col,
        ).toggled(),
        grid.toggle_cell(row, col).ticks(n).reset().cells == grid.toggle_cell(
            row,
            col,
        ).initial_state,
{
    grid.lemma_index_in_range(row, col);
    lemma_reset_discards_ticks(grid.set_cell(cell, row, col), n);
    lemma_reset_discards_ticks(grid.toggle_cell(row, col), n);
}

/// The grid wraps around at its corners: on a grid with at least one row and
/// one column, the neighbor up and to the left of the top-left square is the
/// bottom-right square, which is therefore counted among its neighbors.
pub proof fn lemma_top_left_meets_bottom_right(grid: Grid)
    requires
        grid.width >= 1,
        grid.height >= 1,
    ensures
        grid.north(0) == grid.height - 1,
        grid.west(0) == grid.width - 1,
        grid.neighbor_count(0, 0) >= grid.cell_at(grid.height - 1, grid.width - 1).count(),
{
}

/// On a grid with at least three rows and three columns the bottom-right
/// square is exactly one of the eight neighbors of the top-left square: the
/// neighbor count of the top-left square is higher by one where the
/// bottom-right cell is alive than where it is dead.
pub proof fn lemma_bottom_right_counted_once(grid: Grid)
    requires
        grid.consistent(),
        grid.width >= 3,
        grid.height >= 3,
    ensures
        grid.set_cell(Cell::Alive, grid.height - 1, grid.width - 1).neighbor_count(0, 0)
            == grid.set_cell(Cell::Dead, grid.height - 1, grid.width - 1).neighbor_count(0, 0)
            + 1,
{
    let w = grid.width;
    let h = grid.height;
    grid.lemma_index_in_range(h - 1, w - 1);
    grid.lemma_index_in_range(h - 1, 0);
    grid.lemma_index_in_range(h - 1, 1);
    grid.lemma_index_in_range(0, w - 1);
    grid.lemma_index_in_range(0, 1);
    grid.lemma_index_in_range(1, w - 1);
    grid.lemma_index_in_range(1, 0);
    grid.lemma_index_in_range(1, 1);
    assert((h - 1) * w >= 2 * w) by (nonlinear_arith)
        requires
            h >= 3,
            w >= 0,
    ;
    assert(1 * w == w && 0 * w == 0) by (nonlinear_arith);
}

/// On a grid whose cells are all dead no square has a live neighbor.
pub proof fn lemma_dead_grid_has_no_live_neighbor(grid: Grid, row: int, col: int)
    requires
        grid.consistent(),
        grid.in_bounds(row, col),
        grid.all_dead(),
    ensures
        grid.neighbor_count(row, col) == 0,
{
    grid.lemma_index_in_range(grid.north(row), grid.west(col));
    grid.lemma_index_in_range(grid.north(row), col);
    grid.lemma_index_in_range(grid.north(row), grid.east(col));
    grid.lemma_index_in_range(row, grid.west(col));
    grid.lemma_index_in_range(row, grid.east(col));
    grid.lemma_index_in_range(grid.south(row), grid.west(col));
    grid.lemma_index_in_range(grid.south(row), col);
    grid.lemma_index_in_range(grid.south(row), grid.east(col));
}

/// A grid whose cells are all dead stays so under a step of the game.
pub proof fn lemma_dead_grid_stays_dead(grid: Grid)
    requires
        grid.consistent(),
        grid.all_dead(),
    ensures
        grid.tick() == grid,
{
    let w = grid.width as int;
    assert forall|i: int| 0 <= i < grid.cells.len() implies grid.tick().cells[i]
        == Cell::Dead by {
        lemma_position_is_square(grid.width, grid.height, i);
        lemma_dead_grid_has_no_live_neighbor(grid, i / w, i % w);
    }
    assert(grid.tick().cells =~= grid.cells);
}

} // verus!
