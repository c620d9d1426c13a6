//! The mathematical model of the grid: indexing, the toroidal neighborhood,
//! the transition rule and the text rendering, all over sequences of cells.
use vstd::prelude::*;

use crate::cell::{alive_value, Cell};

verus! {

/// Row-major position of the cell at (`row`, `col`) in a grid `width` cells wide.
pub open spec fn cell_index(row: int, col: int, width: int) -> int {
    row * width + col
}

/// What the neighbor at offset (`dr`, `dc`) adds to the count of (`row`, `col`).
/// The offset pair (0, 0), which names the cell itself, adds nothing; any other
/// pair names the cell `((row + dr) mod height, (col + dc) mod width)`, so the
/// grid wraps around on both axes.
pub open spec fn neighbor_term(
    cells: Seq<Cell>,
    width: int,
    height: int,
    row: int,
    col: int,
    dr: int,
    dc: int,
) -> nat {
    if dr == 0 && dc == 0 {
        0
    } else {
        alive_value(cells[cell_index((row + dr) % height, (col + dc) % width, width)])
    }
}

/// The three neighbors of one row offset, at column offsets `width - 1`, 0 and 1.
pub open spec fn row_neighbors(
    cells: Seq<Cell>,
    width: int,
    height: int,
    row: int,
    col: int,
    dr: int,
) -> nat {
    neighbor_term(cells, width, height, row, col, dr, width - 1)
        + neighbor_term(cells, width, height, row, col, dr, 0)
        + neighbor_term(cells, width, height, row, col, dr, 1)
}

/// The number of live neighbors of (`row`, `col`): the offsets `height - 1`, 0
/// and 1 on rows combined with `width - 1`, 0 and 1 on columns. On a grid one or
/// two cells wide or high some of these name the same cell, which is then
/// counted once for each offset that reaches it.
pub open spec fn live_neighbors(cells: Seq<Cell>, width: int, height: int, row: int, col: int) -> nat {
    row_neighbors(cells, width, height, row, col, height - 1)
        + row_neighbors(cells, width, height, row, col, 0)
        + row_neighbors(cells, width, height, row, col, 1)
}

/// The state of a cell in the next generation, given its state and its number
/// of live neighbors: a live cell with two or three live neighbors lives on, a
/// dead cell with exactly three comes alive, and every other cell is dead.
pub open spec fn next_cell(cell: Cell, neighbors: nat) -> Cell {
    if neighbors == 3 || (cell == Cell::Alive && neighbors == 2) {
        Cell::Alive
    } else {
        Cell::Dead
    }
}

/// The next generation of a `width` by `height` grid: every cell is updated at
/// once, from the states of the current generation only.
pub open spec fn next_generation(cells: Seq<Cell>, width: int, height: int) -> Seq<Cell> {
    Seq::new(
        (width * height) as nat,
        |i: int| next_cell(cells[i], live_neighbors(cells, width, height, i / width, i % width)),
    )
}

/// A grid of `len` cells, all dead.
pub open spec fn all_dead(len: nat) -> Seq<Cell> {
    Seq::new(len, |i: int| Cell::Dead)
}

/// The state in which a fresh universe starts: the cell at linear index `i` is
/// alive when `i` is a multiple of 2 or of 7.
pub open spec fn initial_cell(i: int) -> Cell {
    if i % 2 == 0 || i % 7 == 0 {
        Cell::Alive
    } else {
        Cell::Dead
    }
}

/// Whether one of the `coords` pairs (row, column) names linear index `i`.
pub open spec fn is_seeded(coords: Seq<(u32, u32)>, width: int, i: int) -> bool {
    exists|k: int|
        0 <= k < coords.len() && cell_index(#[trigger] coords[k].0 as int, coords[k].1 as int, width)
            == i
}

/// `cells` with every cell that `coords` names made alive, the others unchanged.
pub open spec fn seeded(cells: Seq<Cell>, coords: Seq<(u32, u32)>, width: int) -> Seq<Cell> {
    Seq::new(
        cells.len(),
        |i: int|
            if is_seeded(coords, width, i) {
                Cell::Alive
            } else {
                cells[i]
            },
    )
}

/// The glyph that shows a cell: a hollow square when dead, a solid one when alive.
pub open spec fn glyph(c: Cell) -> char {
    if c == Cell::Dead {
        '◻'
    } else {
        '◼'
    }
}

/// The cell that a glyph shows.
pub open spec fn cell_of_glyph(ch: char) -> Cell {
    if ch == '◼' {
        Cell::Alive
    } else {
        Cell::Dead
    }
}

/// The text of a `width` by `height` grid: one line per row, top to bottom, each
/// made of the row's glyphs left to right and a newline.
pub open spec fn render_text(cells: Seq<Cell>, width: int, height: int) -> Seq<char> {
    Seq::new(
        (height * (width + 1)) as nat,
        |k: int|
            if k % (width + 1) == width {
                '\n'
            } else {
                glyph(cells[cell_index(k / (width + 1), k % (width + 1), width)])
            },
    )
}

/// The cells that a text in the shape of `render_text` shows, read back glyph by glyph.
pub open spec fn decode_text(text: Seq<char>, width: int, height: int) -> Seq<Cell> {
    Seq::new(
        (width * height) as nat,
        |i: int| cell_of_glyph(text[cell_index(i / width, i % width, width + 1)]),
    )
}

/// The character of `render_text` on line `row` at place `col`: a glyph for
/// `col < width`, the newline for `col == width`.
pub proof fn lemma_render_text_at(cells: Seq<Cell>, width: int, height: int, row: int, col: int)
    requires
        0 <= row < height,
        0 <= col <= width,
    ensures
        0 <= cell_index(row, col, width + 1) < height * (width + 1),
        col < width ==> 0 <= cell_index(row, col, width) < height * width,
        render_text(cells, width, height)[cell_index(row, col, width + 1)] == if col == width {
            '\n'
        } else {
            glyph(cells[cell_index(row, col, width)])
        },
{
    let k = cell_index(row, col, width + 1);
    vstd::arithmetic::div_mod::lemma_fundamental_div_mod_converse(k, width + 1, row, col);
    assert(0 <= k < height * (width + 1)) by (nonlinear_arith)
        requires
            k == row * (width + 1) + col,
            0 <= row < height,
            0 <= col <= width,
    ;
    if col < width {
        assert(0 <= row * width + col < height * width) by (nonlinear_arith)
            requires
                0 <= row < height,
                0 <= col < width,
        ;
    }
}

} // verus!
