use vstd::prelude::*;
use vstd::arithmetic::div_mod::{lemma_fundamental_div_mod, lemma_fundamental_div_mod_converse};

use crate::cell::glyph_of;

verus! {

/// Mathematical model of a world: its dimensions and whether each cell is
/// alive, in row-major order (the cell at `(x, y)` has index `y * width + x`).
pub struct Grid {
    pub width: int,
    pub height: int,
    pub cells: Seq<bool>,
}

/// The rule of the automaton: a living cell stays alive with two or three
/// living neighbours, a dead cell comes alive with exactly three.
pub open spec fn survives(alive: bool, neighbors: int) -> bool {
    if alive {
        2 <= neighbors <= 3
    } else {
        neighbors == 3
    }
}

pub open spec fn bool_to_int(b: bool) -> int {
    if b {
        1
    } else {
        0
    }
}

impl Grid {
    pub open spec fn wf(self) -> bool {
        &&& self.width > 0
        &&& self.height > 0
        &&& self.cells.len() == self.width * self.height
    }

    pub open spec fn in_grid(self, x: int, y: int) -> bool {
        0 <= x < self.width && 0 <= y < self.height
    }

    pub open spec fn index_of(self, x: int, y: int) -> int {
        y * self.width + x
    }

    /// Whether the cell at `(x, y)` is alive; every coordinate outside the
    /// grid reads as dead.
    pub open spec fn alive_at(self, x: int, y: int) -> bool {
        self.in_grid(x, y) && self.cells[self.index_of(x, y)]
    }

    /// Whether `(x, y)` lies strictly inside the dead frame.
    pub open spec fn is_interior(self, x: int, y: int) -> bool {
        0 < x < self.width - 1 && 0 < y < self.height - 1
    }

    /// Number of living cells among the eight of the Moore neighbourhood.
    pub open spec fn neighbors(self, x: int, y: int) -> int {
        bool_to_int(self.alive_at(x, y + 1)) + bool_to_int(self.alive_at(x, y - 1))
            + bool_to_int(self.alive_at(x + 1, y)) + bool_to_int(self.alive_at(x - 1, y))
            + bool_to_int(self.alive_at(x + 1, y + 1)) + bool_to_int(self.alive_at(x - 1, y - 1))
            + bool_to_int(self.alive_at(x + 1, y - 1)) + bool_to_int(self.alive_at(x - 1, y + 1))
    }

    /// The neighbour count that the rule sees at flat index `i`: the Moore
    /// count for an interior cell, zero for a cell of the frame.
    pub open spec fn count_at(self, i: int) -> int {
        let x = i % self.width;
        let y = i / self.width;
        if self.is_interior(x, y) {
            self.neighbors(x, y)
        } else {
            0
        }
    }

    /// The next generation, computed from this one as a frozen snapshot.
    pub open spec fn step(self) -> Grid {
        Grid {
            width: self.width,
            height: self.height,
            cells: Seq::new(self.cells.len(), |i: int| survives(self.cells[i], self.count_at(i))),
        }
    }

    /// The grid after `n` generations.
    pub open spec fn generation(self, n: nat) -> Grid
        decreases n,
    {
        if n == 0 {
            self
        } else {
            self.generation((n - 1) as nat).step()
        }
    }

    /// A grid of the given dimensions in which every cell is dead.
    pub open spec fn all_dead(width: int, height: int) -> Grid {
        Grid { width, height, cells: Seq::new((width * height) as nat, |i: int| false) }
    }

    /// What follows the glyph of the cell at flat index `i` in text output: a
    /// line break after the last cell of a row, nothing elsewhere.
    pub open spec fn line_end(self, i: int) -> Seq<char> {
        if i % self.width == self.width - 1 {
            seq!['\n']
        } else {
            Seq::empty()
        }
    }

    /// Text of the first `n` cells in row-major order: each cell's glyph, and
    /// a line break after each row.
    pub open spec fn text_prefix(self, n: nat) -> Seq<char>
        decreases n,
    {
        if n == 0 {
            Seq::empty()
        } else {
            let i = n - 1;
            self.text_prefix(i as nat).push(glyph_of(self.cells[i])) + self.line_end(i)
        }
    }

    /// Text of the whole grid.
    pub open spec fn text(self) -> Seq<char> {
        self.text_prefix(self.cells.len())
    }

    /// Every cell of the outer ring is dead.
    pub open spec fn border_dead(self) -> bool {
        forall|x: int, y: int|
            self.in_grid(x, y) && !self.is_interior(x, y) ==> !#[trigger] self.alive_at(x, y)
    }
}

/// A flat index of a well-formed grid names exactly one in-grid coordinate.
pub proof fn lemma_index_split(g: Grid, i: int)
    requires
        g.wf(),
        0 <= i < g.cells.len(),
    ensures
        g.in_grid(i % g.width, i / g.width),
        g.index_of(i % g.width, i / g.width) == i,
{
    let w = g.width;
    lemma_fundamental_div_mod(i, w);
    let y = i / w;
    assert(y < g.height) by {
        if y >= g.height {
            assert(w * y >= w * g.height) by (nonlinear_arith)
                requires
                    y >= g.height,
                    w > 0,
            ;
        }
    }
    assert(y >= 0) by {
        if y < 0 {
            assert(w * y <= -w) by (nonlinear_arith)
                requires
                    y < 0,
                    w > 0,
            ;
        }
    }
    assert(y * w == w * y) by (nonlinear_arith);
}

/// An in-grid coordinate is recovered from its flat index.
pub proof fn lemma_index_join(g: Grid, x: int, y: int)
    requires
        g.wf(),
        g.in_grid(x, y),
    ensures
        0 <= g.index_of(x, y) < g.cells.len(),
        g.index_of(x, y) % g.width == x,
        g.index_of(x, y) / g.width == y,
{
    let w = g.width;
    let h = g.height;
    lemma_fundamental_div_mod_converse(g.index_of(x, y), w, y, x);
    assert(y * w + x < w * h) by (nonlinear_arith)
        requires
            0 <= x < w,
            0 <= y < h,
    ;
    assert(y * w + x >= 0) by (nonlinear_arith)
        requires
            0 <= x,
            0 <= y,
            w > 0,
    ;
}

/// The next generation of a well-formed grid is well formed, with the same
/// dimensions.
pub proof fn lemma_step_keeps_dimensions(g: Grid)
    requires
        g.wf(),
    ensures
        g.step().wf(),
        g.step().width == g.width,
        g.step().height == g.height,
{
}

/// Whatever the grid holds, every cell of the frame is dead after one
/// generation.
pub proof fn lemma_step_border_dead(g: Grid)
    requires
        g.wf(),
    ensures
        g.step().border_dead(),
{
    let s = g.step();
    assert forall|x: int, y: int| s.in_grid(x, y) && !s.is_interior(x, y) implies !#[trigger] s.alive_at(x, y) by {
        lemma_index_join(g, x, y);
    }
}

/// Every generation reachable from a well-formed grid is well formed, and its
/// frame is dead: after the first step whatever the start, and from the start
/// where the start's frame is dead.
pub proof fn lemma_border_invariant(g: Grid, n: nat)
    requires
        g.wf(),
        g.border_dead() || n > 0,
    ensures
        g.generation(n).wf(),
        g.generation(n).width == g.width,
        g.generation(n).height == g.height,
        g.generation(n).border_dead(),
    decreases n,
{
    if n > 0 {
        let p = (n - 1) as nat;
        if p > 0 || g.border_dead() {
            lemma_border_invariant(g, p);
        } else {
            assert(g.generation(p) == g);
        }
        lemma_step_keeps_dimensions(g.generation(p));
        lemma_step_border_dead(g.generation(p));
    }
}

/// The neighbour count of any coordinate lies between zero and eight.
pub proof fn lemma_neighbor_bounds(g: Grid, x: int, y: int)
    ensures
        0 <= g.neighbors(x, y) <= 8,
        0 <= g.count_at(g.index_of(x, y)) <= 8,
{
}

/// The next generation is a function of the current cells and dimensions
/// alone: two equal grids step to equal grids.
pub proof fn lemma_step_deterministic(a: Grid, b: Grid)
    requires
        a == b,
    ensures
        a.step() == b.step(),
{
}

/// In a cleared grid every coordinate reads as dead, and clearing it again
/// gives the same grid.
pub proof fn lemma_clear_idempotent(width: int, height: int, x: int, y: int)
    requires
        width > 0,
        height > 0,
    ensures
        !Grid::all_dead(width, height).alive_at(x, y),
        Grid::all_dead(Grid::all_dead(width, height).width, Grid::all_dead(width, height).height)
            == Grid::all_dead(width, height),
{
    let g = Grid::all_dead(width, height);
    if g.in_grid(x, y) {
        assert(g.wf()) by (nonlinear_arith)
            requires
                width > 0,
                height > 0,
                g.cells.len() == (width * height) as nat,
                g.width == width,
                g.height == height,
        ;
        lemma_index_join(g, x, y);
    }
}

/// A coordinate outside the grid always reads as dead.
pub proof fn lemma_out_of_bounds_dead(g: Grid, x: int, y: int)
    requires
        !g.in_grid(x, y),
    ensures
        !g.alive_at(x, y),
{
}

/// Whether `(x, y)` is one of the four cells of the 2x2 block whose top-left
/// corner is `(bx, by)`.
pub open spec fn in_block(bx: int, by: int, x: int, y: int) -> bool {
    bx <= x <= bx + 1 && by <= y <= by + 1
}

/// A 2x2 block of living cells inside the frame, with every other cell
/// dead, is left unchanged by a generation.
pub proof fn lemma_block_still_life(g: Grid, bx: int, by: int)
    requires
        g.wf(),
        1 <= bx,
        bx + 3 <= g.width,
        1 <= by,
        by + 3 <= g.height,
        forall|x: int, y: int| g.in_grid(x, y) ==> (#[trigger] g.alive_at(x, y) == in_block(bx, by, x, y)),
    ensures
        g.step() == g,
{
    assert forall|x: int, y: int| #[trigger] g.alive_at(x, y) == in_block(bx, by, x, y) by {
        if !g.in_grid(x, y) {
            lemma_out_of_bounds_dead(g, x, y);
        }
    }
    let s = g.step();
    assert forall|i: int| 0 <= i < g.cells.len() implies #[trigger] s.cells[i] == g.cells[i] by {
        lemma_index_split(g, i);
        let x = i % g.width;
        let y = i / g.width;
        assert(g.cells[i] == g.alive_at(x, y));
        assert(g.alive_at(x, y + 1) == in_block(bx, by, x, y + 1));
        assert(g.alive_at(x, y - 1) == in_block(bx, by, x, y - 1));
        assert(g.alive_at(x + 1, y) == in_block(bx, by, x + 1, y));
        assert(g.alive_at(x - 1, y) == in_block(bx, by, x - 1, y));
        assert(g.alive_at(x + 1, y + 1) == in_block(bx, by, x + 1, y + 1));
        assert(g.alive_at(x - 1, y - 1) == in_block(bx, by, x - 1, y - 1));
        assert(g.alive_at(x + 1, y - 1) == in_block(bx, by, x + 1, y - 1));
        assert(g.alive_at(x - 1, y + 1) == in_block(bx, by, x - 1, y + 1));
    }
    assert(s.cells =~= g.cells);
}

} // verus!
