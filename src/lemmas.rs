//! Laws of the model: what holds of every grid, proved over the spec functions
//! that the engine's contracts use.
use vstd::prelude::*;

use crate::cell::{alive_value, Cell};
use crate::life::{
    all_dead, cell_index, decode_text, glyph, lemma_render_text_at, live_neighbors, neighbor_term,
    next_generation, render_text,
};

verus! {

/// An `n` by `n` grid whose only live cell is the one at (0, 0).
pub open spec fn lone_origin(n: int) -> Seq<Cell> {
    Seq::new(
        (n * n) as nat,
        |i: int|
            if i == 0 {
                Cell::Alive
            } else {
                Cell::Dead
            },
    )
}

/// The step is a function of the cells and the dimensions: two grids with the
/// same cells and dimensions step to the same cells.
pub proof fn lemma_step_deterministic(
    first: Seq<Cell>,
    second: Seq<Cell>,
    width: int,
    height: int,
)
    requires
        first == second,
    ensures
        next_generation(first, width, height) == next_generation(second, width, height),
{
}

/// The live cell at (0, 0) of an `n` by `n` grid is a neighbor of all eight
/// cells around it on the torus: (n-1, n-1), (n-1, 0), (0, n-1), (1, 1), (1, 0),
/// (0, 1), (n-1, 1) and (1, n-1).
pub proof fn lemma_toroidal_wrap(n: int)
    requires
        n >= 2,
    ensures
        live_neighbors(lone_origin(n), n, n, n - 1, n - 1) >= 1,
        live_neighbors(lone_origin(n), n, n, n - 1, 0) >= 1,
        live_neighbors(lone_origin(n), n, n, 0, n - 1) >= 1,
        live_neighbors(lone_origin(n), n, n, 1, 1) >= 1,
        live_neighbors(lone_origin(n), n, n, 1, 0) >= 1,
        live_neighbors(lone_origin(n), n, n, 0, 1) >= 1,
        live_neighbors(lone_origin(n), n, n, n - 1, 1) >= 1,
        live_neighbors(lone_origin(n), n, n, 1, n - 1) >= 1,
{
    let cells = lone_origin(n);
    assert(n * n > 0) by (nonlinear_arith)
        requires
            n >= 2,
    ;
    assert(n % n == 0) by {
        vstd::arithmetic::div_mod::lemma_mod_self_0(n);
    }
    assert(0int % n == 0);
    assert(cell_index(0, 0, n) == 0);
    assert(alive_value(cells[0]) == 1);
    assert(neighbor_term(cells, n, n, n - 1, n - 1, 1, 1) == 1);
    assert(neighbor_term(cells, n, n, n - 1, 0, 1, 0) == 1);
    assert(neighbor_term(cells, n, n, 0, n - 1, 0, 1) == 1);
    assert(neighbor_term(cells, n, n, 1, 1, n - 1, n - 1) == 1);
    assert(neighbor_term(cells, n, n, 1, 0, n - 1, 0) == 1);
    assert(neighbor_term(cells, n, n, 0, 1, 0, n - 1) == 1);
    assert(neighbor_term(cells, n, n, n - 1, 1, 1, n - 1) == 1);
    assert(neighbor_term(cells, n, n, 1, n - 1, n - 1, 1) == 1);
}

/// A resized grid holds `width * height` cells and none of them is alive, so
/// nothing seeded before the resize survives it.
pub proof fn lemma_resize_clears(width: nat, height: nat)
    ensures
        all_dead(width * height).len() == width * height,
        forall|i: int| 0 <= i < width * height ==> #[trigger] all_dead(width * height)[i] != Cell::Alive,
{
}

/// The text of a grid has `height` lines of `width` glyphs each, every line
/// ending in a newline, and reading the glyphs back gives the cells exactly.
pub proof fn lemma_render_round_trip(cells: Seq<Cell>, width: int, height: int)
    requires
        width >= 0,
        height >= 0,
        cells.len() == width * height,
    ensures
        render_text(cells, width, height).len() == height * (width + 1),
        forall|row: int, col: int|
            0 <= row < height && 0 <= col < width ==> #[trigger] render_text(
                cells,
                width,
                height,
            )[cell_index(row, col, width + 1)] == glyph(cells[cell_index(row, col, width)])
                && render_text(cells, width, height)[cell_index(row, col, width + 1)] != '\n',
        forall|row: int|
            0 <= row < height ==> #[trigger] render_text(cells, width, height)[cell_index(
                row,
                width,
                width + 1,
            )] == '\n',
        decode_text(render_text(cells, width, height), width, height) == cells,
{
    let text = render_text(cells, width, height);
    assert(height * (width + 1) >= 0) by (nonlinear_arith)
        requires
            height >= 0,
            width >= 0,
    ;
    assert forall|row: int, col: int| 0 <= row < height && 0 <= col <= width implies text[cell_index(
        row,
        col,
        width + 1,
    )] == if col == width {
        '\n'
    } else {
        glyph(cells[cell_index(row, col, width)])
    } by {
        lemma_render_text_at(cells, width, height, row, col);
    }
    assert forall|row: int| 0 <= row < height implies #[trigger] text[cell_index(
        row,
        width,
        width + 1,
    )] == '\n' by {
        lemma_render_text_at(cells, width, height, row, width);
    }
    let decoded = decode_text(text, width, height);
    assert forall|i: int| 0 <= i < cells.len() implies decoded[i] == cells[i] by {
        let row = i / width;
        let col = i % width;
        assert(width > 0) by {
            if width == 0 {
                assert(width * height == 0);
            }
        }
        vstd::arithmetic::div_mod::lemma_fundamental_div_mod(i, width);
        assert(0 <= row < height) by (nonlinear_arith)
            requires
                row == i / width,
                width > 0,
                0 <= i < width * height,
        ;
        lemma_render_text_at(cells, width, height, row, col);
        assert(cell_index(row, col, width) == i) by (nonlinear_arith)
            requires
                i == width * (i / width) + i % width,
                row == i / width,
                col == i % width,
        ;
    }
    assert(decoded =~= cells);
}

} // verus!
