//! The grid engine: a toroidal grid of cells and its generational step.
use vstd::prelude::*;

use crate::cell::Cell;
use crate::life::{
    all_dead, cell_index, glyph, initial_cell, is_seeded, lemma_render_text_at, live_neighbors,
    neighbor_term, next_cell, next_generation, render_text, row_neighbors, seeded,
};

verus! {

/// Sum of the first `k` of `a`, `b` and `c`.
spec fn sum_first(a: nat, b: nat, c: nat, k: int) -> nat {
    if k <= 0 {
        0
    } else if k == 1 {
        a
    } else if k == 2 {
        a + b
    } else {
        a + b + c
    }
}

/// The neighbors counted from the first `i` row offsets.
spec fn rows_upto(cells: Seq<Cell>, w: int, h: int, row: int, col: int, i: int) -> nat {
    sum_first(
        row_neighbors(cells, w, h, row, col, h - 1),
        row_neighbors(cells, w, h, row, col, 0),
        row_neighbors(cells, w, h, row, col, 1),
        i,
    )
}

/// The neighbors counted from the first `j` column offsets of row offset `dr`.
spec fn terms_upto(cells: Seq<Cell>, w: int, h: int, row: int, col: int, dr: int, j: int) -> nat {
    sum_first(
        neighbor_term(cells, w, h, row, col, dr, w - 1),
        neighbor_term(cells, w, h, row, col, dr, 0),
        neighbor_term(cells, w, h, row, col, dr, 1),
        j,
    )
}

/// The number of columns of a fresh universe.
pub const DEFAULT_WIDTH: u32 = 128;

/// The number of rows of a fresh universe.
pub const DEFAULT_HEIGHT: u32 = 128;

/// A buffer of `len` dead cells.
fn dead_cells(len: u32) -> (r: Vec<Cell>)
    ensures
        r@ == all_dead(len as nat),
{
    let mut cells: Vec<Cell> = Vec::new();
    let mut i: u32 = 0;
    while i < len
        invariant
            i <= len,
            cells@ == all_dead(i as nat),
        decreases len - i,
    {
        cells.push(Cell::Dead);
        proof {
            assert(cells@ =~= all_dead((i + 1) as nat));
        }
        i += 1;
    }
    cells
}

/// A toroidal grid of cells, `width` wide and `height` high, stored row by row.
pub struct Universe {
    width: u32,
    height: u32,
    cells: Vec<Cell>,
}

impl Universe {
    /// The number of columns.
    pub closed spec fn spec_width(&self) -> nat {
        self.width as nat
    }

    /// The number of rows.
    pub closed spec fn spec_height(&self) -> nat {
        self.height as nat
    }

    /// The cells, row-major: the cell at (row, col) is at `row * width + col`.
    pub closed spec fn spec_cells(&self) -> Seq<Cell> {
        self.cells@
    }

    /// The buffer holds exactly `width * height` cells, a count that fits in a `u32`.
    pub closed spec fn wf(&self) -> bool {
        &&& self.cells@.len() == self.width * self.height
        &&& self.width * self.height <= u32::MAX
    }

    /// A `DEFAULT_WIDTH` by `DEFAULT_HEIGHT` universe in which the cell at linear
    /// index `i` is alive when `i` is a multiple of 2 or of 7.
    pub fn new() -> (r: Universe)
        ensures
            r.wf(),
            r.spec_width() == DEFAULT_WIDTH,
            r.spec_height() == DEFAULT_HEIGHT,
            r.spec_cells().len() == r.spec_width() * r.spec_height(),
            r.spec_cells() == Seq::new(
                (DEFAULT_WIDTH * DEFAULT_HEIGHT) as nat,
                |i: int| initial_cell(i),
            ),
    {
        let width = DEFAULT_WIDTH;
        let height = DEFAULT_HEIGHT;
        let len = width * height;
        let mut cells: Vec<Cell> = Vec::new();
        let mut i: u32 = 0;
        while i < len
            invariant
                len == DEFAULT_WIDTH * DEFAULT_HEIGHT,
                i <= len,
                cells@ == Seq::new(i as nat, |k: int| initial_cell(k)),
            decreases len - i,
        {
            let cell = if i % 2 == 0 || i % 7 == 0 {
                Cell::Alive
            } else {
                Cell::Dead
            };
            cells.push(cell);
            proof {
                assert(cells@ =~= Seq::new((i + 1) as nat, |k: int| initial_cell(k)));
            }
            i += 1;
        }
        Universe { width, height, cells }
    }

    /// The number of columns.
    pub fn width(&self) -> (r: u32)
        ensures
            r == self.spec_width(),
    {
        self.width
    }

    /// The number of rows.
    pub fn height(&self) -> (r: u32)
        ensures
            r == self.spec_height(),
    {
        self.height
    }

    /// Sets the number of columns. The grid is reset: every cell of the new
    /// `width * height` buffer is dead, whatever the old cells were.
    pub fn set_width(&mut self, width: u32)
        requires
            width * old(self).spec_height() <= u32::MAX,
        ensures
            final(self).wf(),
            final(self).spec_width() == width,
            final(self).spec_height() == old(self).spec_height(),
            final(self).spec_cells().len() == final(self).spec_width() * final(self).spec_height(),
            final(self).spec_cells() == all_dead((width * old(self).spec_height()) as nat),
    {
        self.width = width;
        self.cells = dead_cells(width * self.height);
    }

    /// Sets the number of rows. The grid is reset: every cell of the new
    /// `width * height` buffer is dead, whatever the old cells were.
    pub fn set_height(&mut self, height: u32)
        requires
            old(self).spec_width() * height <= u32::MAX,
        ensures
            final(self).wf(),
            final(self).spec_width() == old(self).spec_width(),
            final(self).spec_height() == height,
            final(self).spec_cells().len() == final(self).spec_width() * final(self).spec_height(),
            final(self).spec_cells() == all_dead((old(self).spec_width() * height) as nat),
    {
        self.height = height;
        self.cells = dead_cells(self.width * height);
    }

    /// A read-only view of the whole buffer, row-major. It is valid until the
    /// next call that changes the universe.
    pub fn get_cells(&self) -> (r: &[Cell])
        ensures
            r@ == self.spec_cells(),
    {
        self.cells.as_slice()
    }

    /// Makes alive each cell named by a (row, column) pair of `cells`, and
    /// leaves every other cell as it was.
    pub fn set_cells(&mut self, cells: &[(u32, u32)])
        requires
            old(self).wf(),
            forall|k: int|
                0 <= k < cells@.len() ==> #[trigger] cells@[k].0 < old(self).spec_height()
                    && cells@[k].1 < old(self).spec_width(),
        ensures
            final(self).wf(),
            final(self).spec_width() == old(self).spec_width(),
            final(self).spec_height() == old(self).spec_height(),
            final(self).spec_cells() == seeded(
                old(self).spec_cells(),
                cells@,
                old(self).spec_width() as int,
            ),
    {
        let ghost start = self.cells@;
        let ghost w = self.width as int;
        let mut j: usize = 0;
        while j < cells.len()
            invariant
                self.wf(),
                self.width == old(self).width,
                self.height == old(self).height,
                start == old(self).cells@,
                w == self.width,
                j <= cells@.len(),
                forall|k: int|
                    0 <= k < cells@.len() ==> #[trigger] cells@[k].0 < self.height
                        && cells@[k].1 < self.width,
                self.cells@ == seeded(start, cells@.take(j as int), w),
            decreases cells@.len() - j,
        {
            let (row, col) = cells[j];
            let idx = self.get_index(row, col);
            self.cells[idx] = Cell::Alive;
            proof {
                let before = cells@.take(j as int);
                let after = cells@.take(j + 1);
                assert forall|i: int| 0 <= i < start.len() implies
                    is_seeded(after, w, i) == (i == idx || is_seeded(before, w, i)) by {
                    if is_seeded(before, w, i) {
                        let k = choose|k: int|
                            0 <= k < before.len() && cell_index(
                                #[trigger] before[k].0 as int,
                                before[k].1 as int,
                                w,
                            ) == i;
                        assert(after[k] == before[k]);
                    }
                    if i == idx {
                        assert(after[j as int] == cells@[j as int]);
                    }
                    if is_seeded(after, w, i) && i != idx {
                        let k = choose|k: int|
                            0 <= k < after.len() && cell_index(
                                #[trigger] after[k].0 as int,
                                after[k].1 as int,
                                w,
                            ) == i;
                        assert(k != j);
                        assert(after[k] == before[k]);
                    }
                }
                assert(self.cells@ =~= seeded(start, after, w));
            }
            j += 1;
        }
        proof {
            assert(cells@.take(cells@.len() as int) =~= cells@);
        }
    }

    /// A well-formed universe holds exactly `width * height` cells.
    pub proof fn lemma_buffer_size(&self)
        requires
            self.wf(),
        ensures
            self.spec_cells().len() == self.spec_width() * self.spec_height(),
    {
    }

    fn get_index(&self, row: u32, column: u32) -> (r: usize)
        requires
            self.wf(),
            row < self.height,
            column < self.width,
        ensures
            r == cell_index(row as int, column as int, self.width as int),
            r < self.cells@.len(),
    {
        proof {
            let (w, h) = (self.width as int, self.height as int);
            assert(row * w + column < w * h) by (nonlinear_arith)
                requires
                    row < h,
                    column < w,
            ;
        }
        (row * self.width + column) as usize
    }

    fn live_neighbor_count(&self, row: u32, column: u32) -> (r: u8)
        requires
            self.wf(),
            row < self.height,
            column < self.width,
        ensures
            r as nat == live_neighbors(
                self.cells@,
                self.width as int,
                self.height as int,
                row as int,
                column as int,
            ),
    {
        let ghost cells = self.cells@;
        let ghost w = self.width as int;
        let ghost h = self.height as int;
        let row_deltas: [u32; 3] = [self.height - 1, 0, 1];
        let col_deltas: [u32; 3] = [self.width - 1, 0, 1];
        let mut count: u8 = 0;
        let mut i: usize = 0;
        while i < 3
            invariant
                self.wf(),
                cells == self.cells@,
                w == self.width,
                h == self.height,
                row < h,
                column < w,
                i <= 3,
                row_deltas@ == seq![(h - 1) as u32, 0u32, 1u32],
                col_deltas@ == seq![(w - 1) as u32, 0u32, 1u32],
                count == rows_upto(cells, w, h, row as int, column as int, i as int),
                count <= 3 * i,
            decreases 3 - i,
        {
            let delta_row = row_deltas[i];
            let mut j: usize = 0;
            while j < 3
                invariant
                    self.wf(),
                    cells == self.cells@,
                    w == self.width,
                    h == self.height,
                    row < h,
                    column < w,
                    i < 3,
                    j <= 3,
                    delta_row == row_deltas@[i as int],
                    row_deltas@ == seq![(h - 1) as u32, 0u32, 1u32],
                    col_deltas@ == seq![(w - 1) as u32, 0u32, 1u32],
                    count == rows_upto(cells, w, h, row as int, column as int, i as int)
                        + terms_upto(cells, w, h, row as int, column as int, delta_row as int, j as int),
                    count <= 3 * i + j,
                decreases 3 - j,
            {
                let delta_col = col_deltas[j];
                if !(delta_row == 0 && delta_col == 0) {
                    let neighbor_row = ((row as u64 + delta_row as u64) % self.height as u64) as u32;
                    let neighbor_col = ((column as u64 + delta_col as u64) % self.width as u64) as u32;
                    let idx = self.get_index(neighbor_row, neighbor_col);
                    count = count + self.cells[idx].as_count();
                }
                j += 1;
            }
            i += 1;
        }
        count
    }

    /// Advances the grid by one generation. Every cell is computed from the
    /// current generation into a fresh buffer, which then replaces the old one.
    pub fn tick(&mut self)
        requires
            old(self).wf(),
        ensures
            final(self).wf(),
            final(self).spec_width() == old(self).spec_width(),
            final(self).spec_height() == old(self).spec_height(),
            final(self).spec_cells() == next_generation(
                old(self).spec_cells(),
                old(self).spec_width() as int,
                old(self).spec_height() as int,
            ),
    {
        let ghost cells = self.cells@;
        let ghost w = self.width as int;
        let ghost h = self.height as int;
        let ghost goal = next_generation(cells, w, h);
        proof {
            assert(w * h >= 0) by (nonlinear_arith)
                requires
                    w >= 0,
                    h >= 0,
            ;
            assert(goal.len() == w * h);
        }
        let mut next: Vec<Cell> = Vec::new();
        let mut row: u32 = 0;
        while row < self.height
            invariant
                self.wf(),
                *self == *old(self),
                cells == self.cells@,
                w == self.width,
                h == self.height,
                row <= h,
                goal == next_generation(cells, w, h),
                goal.len() == w * h,
                row * w <= w * h,
                next@.len() == row * w,
                forall|k: int| 0 <= k < next@.len() ==> next@[k] == goal[k],
            decreases h - row,
        {
            proof {
                assert(row * w + w <= w * h) by (nonlinear_arith)
                    requires
                        row < h,
                        w >= 0,
                ;
            }
            let mut col: u32 = 0;
            while col < self.width
                invariant
                    self.wf(),
                    *self == *old(self),
                    cells == self.cells@,
                    w == self.width,
                    h == self.height,
                    row < h,
                    col <= w,
                    goal == next_generation(cells, w, h),
                goal.len() == w * h,
                    row * w + w <= w * h,
                    next@.len() == row * w + col,
                    forall|k: int| 0 <= k < next@.len() ==> next@[k] == goal[k],
                decreases w - col,
            {
                let idx = self.get_index(row, col);
                let cell = self.cells[idx];
                let neighbors = self.live_neighbor_count(row, col);
                let next_state = match (cell, neighbors) {
                    // underpopulation
                    (Cell::Alive, x) if x < 2 => Cell::Dead,
                    // survival
                    (Cell::Alive, 2) | (Cell::Alive, 3) => Cell::Alive,
                    // overpopulation
                    (Cell::Alive, x) if x > 3 => Cell::Dead,
                    // birth
                    (Cell::Dead, 3) => Cell::Alive,
                    // every other cell keeps its state
                    (otherwise, _) => otherwise,
                };
                proof {
                    vstd::arithmetic::div_mod::lemma_fundamental_div_mod_converse(
                        idx as int,
                        w,
                        row as int,
                        col as int,
                    );
                    assert(next_state == next_cell(cell, neighbors as nat));
                    assert(idx < w * h);
                    assert(goal[idx as int] == next_cell(
                        cells[idx as int],
                        live_neighbors(cells, w, h, row as int, col as int),
                    ));
                }
                next.push(next_state);
                col += 1;
            }
            proof {
                assert((row + 1) * w == row * w + w) by (nonlinear_arith);
            }
            row += 1;
        }
        proof {
            assert(row * w == w * h) by (nonlinear_arith)
                requires
                    row == h,
            ;
            assert(next@ =~= goal);
        }
        self.cells = next;
    }

    /// The grid as text: one line per row, top to bottom, each holding the
    /// row's glyphs left to right (`◻` dead, `◼` alive) and a newline.
    pub fn render(&self) -> (r: String)
        requires
            self.wf(),
        ensures
            r@ == render_text(self.spec_cells(), self.spec_width() as int, self.spec_height() as int),
    {
        let ghost cells = self.cells@;
        let ghost w = self.width as int;
        let ghost h = self.height as int;
        let ghost text = render_text(cells, w, h);
        proof {
            assert(h * (w + 1) >= 0) by (nonlinear_arith)
                requires
                    h >= 0,
                    w >= 0,
            ;
        }
        let mut out = String::new();
        let mut row: u32 = 0;
        while row < self.height
            invariant
                self.wf(),
                cells == self.cells@,
                w == self.width,
                h == self.height,
                text == render_text(cells, w, h),
                row <= h,
                text.len() == h * (w + 1),
                out@.len() == row * (w + 1),
                row * (w + 1) <= h * (w + 1),
                forall|k: int| 0 <= k < out@.len() ==> out@[k] == text[k],
            decreases h - row,
        {
            proof {
                lemma_render_text_at(cells, w, h, row as int, 0);
            }
            let mut col: u32 = 0;
            while col < self.width
                invariant
                    self.wf(),
                    cells == self.cells@,
                    w == self.width,
                    h == self.height,
                    text == render_text(cells, w, h),
                    row < h,
                    col <= w,
                    text.len() == h * (w + 1),
                    out@.len() == cell_index(row as int, col as int, w + 1),
                    cell_index(row as int, col as int, w + 1) < text.len(),
                    forall|k: int| 0 <= k < out@.len() ==> out@[k] == text[k],
                decreases w - col,
            {
                let idx = self.get_index(row, col);
                let symbol = if self.cells[idx] == Cell::Dead {
                    "◻"
                } else {
                    "◼"
                };
                proof {
                    reveal_strlit("◻");
                    reveal_strlit("◼");
                    lemma_render_text_at(cells, w, h, row as int, col as int);
                    lemma_render_text_at(cells, w, h, row as int, col + 1);
                    assert(symbol@ == seq![glyph(cells[idx as int])]);
                }
                out.append(symbol);
                col += 1;
            }
            proof {
                reveal_strlit("\n");
                lemma_render_text_at(cells, w, h, row as int, w);
            }
            out.append("\n");
            proof {
                assert((row + 1) * (w + 1) == row * (w + 1) + w + 1) by (nonlinear_arith);
                assert((row + 1) * (w + 1) <= h * (w + 1)) by (nonlinear_arith)
                    requires
                        row < h,
                        w >= 0,
                ;
            }
            row += 1;
        }
        proof {
            assert(out@ =~= text);
        }
        out
    }
}

} // verus!
