//! Grid geometry: pure coordinate math on a square toroidal grid.
//!
//! A cell is identified by a linear index in `[0, width * width)`, row-major:
//! cell `index` lies in row `index / width` and column `index % width`.
//! Moving past an edge wraps to the opposite edge, so every cell has a
//! neighbor in each of the four directions.

use vstd::prelude::*;
use vstd::arithmetic::div_mod::lemma_fundamental_div_mod;
use vstd::arithmetic::div_mod::lemma_fundamental_div_mod_converse;

verus! {

/// One of the four movement directions on the grid.
#[derive(Clone, Copy, PartialEq, Eq, Structural, Debug)]
pub enum Direction {
    Up,
    Right,
    Down,
    Left,
}

/// The direction that undoes a step in `dir`.
pub open spec fn spec_opposite(dir: Direction) -> Direction {
    match dir {
        Direction::Up => Direction::Down,
        Direction::Right => Direction::Left,
        Direction::Down => Direction::Up,
        Direction::Left => Direction::Right,
    }
}

/// Returns the direction opposite to `dir`.
pub fn opposite(dir: Direction) -> (r: Direction)
    ensures
        r == spec_opposite(dir),
{
    match dir {
        Direction::Up => Direction::Down,
        Direction::Right => Direction::Left,
        Direction::Down => Direction::Up,
        Direction::Left => Direction::Right,
    }
}

/// Row of the cell `index` on a grid of the given width.
pub open spec fn spec_row(index: int, width: int) -> int {
    index / width
}

/// Column of the cell `index` on a grid of the given width.
pub open spec fn spec_col(index: int, width: int) -> int {
    index % width
}

/// Returns the row of cell `index`, row-major.
pub fn row_of(index: usize, width: usize) -> (r: usize)
    requires
        1 <= width,
    ensures
        r == spec_row(index as int, width as int),
{
    index / width
}

/// Returns the column of cell `index`, row-major.
pub fn col_of(index: usize, width: usize) -> (r: usize)
    requires
        1 <= width,
    ensures
        r == spec_col(index as int, width as int),
{
    index % width
}

/// The cell one step from `index` in direction `dir`, wrapping across the
/// grid edge: leaving row 0 upward re-enters in the last row, leaving the
/// last column rightward re-enters in column 0 of the same row, and so on.
pub open spec fn spec_neighbor(index: int, width: int, dir: Direction) -> int {
    let row = index / width;
    let col = index % width;
    match dir {
        Direction::Up => if row == 0 {
            index + width * width - width
        } else {
            index - width
        },
        Direction::Down => if row == width - 1 {
            col
        } else {
            index + width
        },
        Direction::Right => if col == width - 1 {
            row * width
        } else {
            index + 1
        },
        Direction::Left => if col == 0 {
            row * width + width - 1
        } else {
            index - 1
        },
    }
}

/// Row-major decomposition of a valid cell index: `index` splits uniquely
/// into a row and a column, both within the grid.
pub proof fn lemma_cell_decomposition(index: int, width: int)
    requires
        1 <= width,
        0 <= index < width * width,
    ensures
        index == spec_row(index, width) * width + spec_col(index, width),
        0 <= spec_col(index, width) < width,
        0 <= spec_row(index, width) < width,
{
    lemma_fundamental_div_mod(index, width);
    assert(width * (index / width) == (index / width) * width) by (nonlinear_arith);
    assert(0 <= index % width < width) by (nonlinear_arith)
        requires
            1 <= width,
            0 <= index,
    ;
    assert(0 <= index / width < width) by (nonlinear_arith)
        requires
            1 <= width,
            0 <= index < width * width,
    ;
}

/// The composition inverse to `lemma_cell_decomposition`: a row and a column
/// within the grid name a valid cell whose row and column they are.
pub proof fn lemma_cell_composition(row: int, col: int, width: int)
    requires
        1 <= width,
        0 <= row < width,
        0 <= col < width,
    ensures
        0 <= row * width + col < width * width,
        spec_row(row * width + col, width) == row,
        spec_col(row * width + col, width) == col,
{
    assert(0 <= row * width + col < width * width) by (nonlinear_arith)
        requires
            1 <= width,
            0 <= row < width,
            0 <= col < width,
    ;
    lemma_fundamental_div_mod_converse(row * width + col, width, row, col);
}

/// Wrap-around closure: from any valid cell, one step in any direction lands
/// on a valid cell, and one step back in the opposite direction returns to
/// the starting cell (Up/Down and Left/Right are mutual inverses).
pub proof fn lemma_neighbor_round_trip(index: int, width: int, dir: Direction)
    requires
        1 <= width,
        0 <= index < width * width,
    ensures
        0 <= spec_neighbor(index, width, dir) < width * width,
        spec_neighbor(spec_neighbor(index, width, dir), width, spec_opposite(dir)) == index,
{
    let row = spec_row(index, width);
    let col = spec_col(index, width);
    lemma_cell_decomposition(index, width);
    let n = spec_neighbor(index, width, dir);
    match dir {
        Direction::Up => {
            if row == 0 {
                assert(n == (width - 1) * width + col) by (nonlinear_arith)
                    requires
                        n == index + width * width - width,
                        index == row * width + col,
                        row == 0,
                ;
                lemma_cell_composition(width - 1, col, width);
            } else {
                assert(n == (row - 1) * width + col) by (nonlinear_arith)
                    requires
                        n == index - width,
                        index == row * width + col,
                ;
                lemma_cell_composition(row - 1, col, width);
            }
        },
        Direction::Down => {
            if row == width - 1 {
                assert(n == 0 * width + col);
                lemma_cell_composition(0, col, width);
                assert(spec_neighbor(n, width, Direction::Up) == n + width * width - width);
                assert(col + width * width - width == row * width + col) by (nonlinear_arith)
                    requires
                        row == width - 1,
                ;
            } else {
                assert(n == (row + 1) * width + col) by (nonlinear_arith)
                    requires
                        n == index + width,
                        index == row * width + col,
                ;
                lemma_cell_composition(row + 1, col, width);
            }
        },
        Direction::Right => {
            if col == width - 1 {
                assert(n == row * width + 0);
                lemma_cell_composition(row, 0, width);
            } else {
                assert(n == row * width + (col + 1));
                lemma_cell_composition(row, col + 1, width);
            }
        },
        Direction::Left => {
            if col == 0 {
                lemma_cell_composition(row, width - 1, width);
            } else {
                assert(n == row * width + (col - 1));
                lemma_cell_composition(row, col - 1, width);
            }
        },
    }
}

/// Returns the cell one step from `index` in direction `dir`, wrapping
/// across the grid edge. Total over valid indices: the result is always a
/// valid index and no arithmetic can overflow or go negative.
pub fn neighbor(index: usize, width: usize, dir: Direction) -> (r: usize)
    requires
        1 <= width,
        width * width <= usize::MAX,
        index < width * width,
    ensures
        r == spec_neighbor(index as int, width as int, dir),
        r < width * width,
{
    proof {
        lemma_cell_decomposition(index as int, width as int);
        lemma_neighbor_round_trip(index as int, width as int, dir);
    }
    let row = index / width;
    let col = index % width;
    match dir {
        Direction::Up => {
            if row == 0 {
                index + (width * width - width)
            } else {
                index - width
            }
        },
        Direction::Down => {
            if row == width - 1 {
                col
            } else {
                index + width
            }
        },
        Direction::Right => {
            if col == width - 1 {
                row * width
            } else {
                index + 1
            }
        },
        Direction::Left => {
            if col == 0 {
                row * width + (width - 1)
            } else {
                index - 1
            }
        },
    }
}

} // verus!
