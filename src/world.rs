use vstd::prelude::*;
use rand::rngs::StdRng;
use rayon::iter::{IntoParallelIterator, ParallelIterator};
use std::time::Instant;

use crate::cell::{glyph_of, Cell};
use crate::grid::{lemma_index_join, lemma_index_split, lemma_step_border_dead, survives, Grid};
use crate::random::{draw_below, fresh_seed, seeded_rng};

verus! {

/// One cell in this many of the interior comes alive in a random world.
pub const LIVE_ODDS: u32 = 4;

/// Why a world of the requested dimensions cannot be made.
#[derive(Debug, Copy, Clone, PartialEq, Eq, Structural)]
pub enum DimensionError {
    ZeroWidth,
    ZeroHeight,
    /// `width * height` does not fit in `usize`.
    TooLarge,
}

/// A generation of the automaton: the cells in row-major order, the
/// dimensions, and how long the generation that produced it took.
#[derive(Debug, Clone)]
pub struct World {
    pub cells: Vec<Cell>,
    pub width: usize,
    pub height: usize,
    pub tick_time_ms: u128,
}

impl View for World {
    type V = Grid;

    open spec fn view(&self) -> Grid {
        Grid {
            width: self.width as int,
            height: self.height as int,
            cells: self.cells@.map_values(|c: Cell| c.alive),
        }
    }
}

/// Whether a world of these dimensions can be held: both positive and the
/// number of cells within `usize`.
pub open spec fn dimensions_ok(width: usize, height: usize) -> bool {
    width > 0 && height > 0 && width * height <= usize::MAX
}

/// Relies on `String::push`: the character is appended at the end.
pub assume_specification[ String::push ](s: &mut String, ch: char)
    ensures
        final(s)@ == old(s)@.push(ch),
;

/// The rule applied to one cell: whether it is alive in the next generation.
pub fn next_alive(alive: bool, neighbors: usize) -> (r: bool)
    ensures
        r == survives(alive, neighbors as int),
{
    if alive {
        !(neighbors < 2 || neighbors > 3)
    } else {
        neighbors == 3
    }
}

/// Relies on rayon's parallel map over `0..len` and its `collect` into a
/// `Vec`, which keeps the order of the range: element `i` is what
/// `world.count_at_index(i)` returns.
#[verifier::external_body]
fn par_counts(world: &World) -> (r: Vec<usize>)
    requires
        world.wf(),
    ensures
        r@.len() == world.cells@.len(),
        forall|i: int| 0 <= i < r@.len() ==> r@[i] == world@.count_at(i),
{
    (0..world.cells.len()).into_par_iter().map(|i| world.count_at_index(i)).collect()
}

impl World {
    /// The cell buffer holds exactly `width * height` cells, and both
    /// dimensions are positive.
    pub open spec fn wf(&self) -> bool {
        self@.wf() && dimensions_ok(self.width, self.height)
    }

    /// A world whose cells are all dead.
    pub fn new(width: usize, height: usize) -> (r: World)
        requires
            dimensions_ok(width, height),
        ensures
            r.wf(),
            r@ == Grid::all_dead(width as int, height as int),
            r.tick_time_ms == 0,
    {
        let n = width * height;
        let mut cells: Vec<Cell> = Vec::with_capacity(n);
        let mut i: usize = 0;
        while i < n
            invariant
                i <= n,
                cells@.len() == i,
                forall|j: int| 0 <= j < i ==> !(#[trigger] cells@[j]).alive,
            decreases n - i,
        {
            cells.push(Cell::new(false));
            i += 1;
        }
        let r = World { cells, width, height, tick_time_ms: 0 };
        assert(r@.cells =~= Grid::all_dead(width as int, height as int).cells);
        r
    }

    /// A world whose cells are all dead, or the reason why no world of these
    /// dimensions can be made.
    pub fn try_new(width: usize, height: usize) -> (r: Result<World, DimensionError>)
        ensures
            width == 0 ==> r == Err::<World, DimensionError>(DimensionError::ZeroWidth),
            width > 0 && height == 0 ==> r == Err::<World, DimensionError>(
                DimensionError::ZeroHeight,
            ),
            width > 0 && height > 0 && width * height > usize::MAX ==> r == Err::<
                World,
                DimensionError,
            >(DimensionError::TooLarge),
            r is Ok <==> dimensions_ok(width, height),
            r matches Ok(w) ==> w.wf() && w@ == Grid::all_dead(width as int, height as int)
                && w.tick_time_ms == 0,
    {
        if width == 0 {
            return Err(DimensionError::ZeroWidth);
        }
        if height == 0 {
            return Err(DimensionError::ZeroHeight);
        }
        match width.checked_mul(height) {
            None => Err(DimensionError::TooLarge),
            Some(_) => Ok(World::new(width, height)),
        }
    }

    /// A world whose interior cell at index `i` is alive exactly where
    /// `live[i]` holds; the frame is dead whatever `live` says there.
    pub fn from_interior(width: usize, height: usize, live: &Vec<bool>) -> (r: World)
        requires
            dimensions_ok(width, height),
            live@.len() == width * height,
        ensures
            r.wf(),
            r.width == width,
            r.height == height,
            r.tick_time_ms == 0,
            forall|i: int|
                0 <= i < r@.cells.len() ==> #[trigger] r@.cells[i] == (r@.is_interior(
                    i % r@.width,
                    i / r@.width,
                ) && live@[i]),
    {
        let n = width * height;
        let mut cells: Vec<Cell> = Vec::with_capacity(n);
        let mut i: usize = 0;
        while i < n
            invariant
                n == width * height,
                live@.len() == n,
                i <= n,
                cells@.len() == i,
                forall|j: int|
                    0 <= j < i ==> (#[trigger] cells@[j]).alive == (0 < j % (width as int) < width
                        - 1 && 0 < j / (width as int) < height - 1 && live@[j]),
            decreases n - i,
        {
            let x = i % width;
            let y = i / width;
            let interior = x != 0 && y != 0 && x < width - 1 && y < height - 1;
            cells.push(Cell::new(interior && live[i]));
            i += 1;
        }
        World { cells, width, height, tick_time_ms: 0 }
    }

    /// The random world that `draws` give: an interior cell lives exactly when
    /// its draw is zero; the frame is dead.
    pub fn from_draws(width: usize, height: usize, draws: &Vec<Option<u32>>) -> (r: World)
        requires
            dimensions_ok(width, height),
            draws@.len() == width * height,
        ensures
            r.wf(),
            r.width == width,
            r.height == height,
            r.tick_time_ms == 0,
            forall|i: int|
                0 <= i < r@.cells.len() ==> #[trigger] r@.cells[i] == (interior_index(
                    width as int,
                    height as int,
                    i,
                ) && draws@[i] == Some(0u32)),
    {
        let live = live_from_draws(width, height, draws);
        World::from_interior(width, height, &live)
    }

    /// A world whose interior cells each come alive, one in `LIVE_ODDS`, by
    /// draws from a generator seeded with `seed`; the frame is dead. The same
    /// seed and dimensions give the same world.
    pub fn new_random_seeded(width: usize, height: usize, seed: u64) -> (r: World)
        requires
            dimensions_ok(width, height),
        ensures
            r.wf(),
            r.width == width,
            r.height == height,
            r.tick_time_ms == 0,
            r@.border_dead(),
    {
        let mut rng = seeded_rng(seed);
        let draws = random_draws(width, height, &mut rng);
        let r = World::from_draws(width, height, &draws);
        proof {
            assert forall|x: int, y: int|
                r@.in_grid(x, y) && !r@.is_interior(x, y) implies !#[trigger] r@.alive_at(x, y) by {
                lemma_index_join(r@, x, y);
            }
        }
        r
    }

    /// A world whose interior cells each come alive, one in `LIVE_ODDS`, by
    /// fresh random draws; the frame is dead.
    pub fn new_random(width: usize, height: usize) -> (r: World)
        requires
            dimensions_ok(width, height),
        ensures
            r.wf(),
            r.width == width,
            r.height == height,
            r.tick_time_ms == 0,
            r@.border_dead(),
    {
        World::new_random_seeded(width, height, fresh_seed())
    }

    /// Whether the cell at `(x, y)` is alive; false for any coordinate
    /// outside the grid.
    pub fn is_alive(&self, x: usize, y: usize) -> (r: bool)
        requires
            self.wf(),
        ensures
            r == self@.alive_at(x as int, y as int),
    {
        if x < self.width && y < self.height {
            let len = self.cells.len();
            proof {
                lemma_index_join(self@, x as int, y as int);
                assert(y * self.width <= y * self.width + x < len);
            }
            self.cells[y * self.width + x].alive
        } else {
            false
        }
    }

    /// Same as `is_alive`.
    pub fn cell_live(&self, x: usize, y: usize) -> (r: bool)
        requires
            self.wf(),
        ensures
            r == self@.alive_at(x as int, y as int),
    {
        self.is_alive(x, y)
    }

    /// Whether the cell at `(x + dx, y + dy)` is alive, for offsets of at most
    /// one; coordinates that leave the range of `usize` are outside the grid.
    fn is_alive_offset(&self, x: usize, y: usize, dx: i8, dy: i8) -> (r: bool)
        requires
            self.wf(),
            -1 <= dx <= 1,
            -1 <= dy <= 1,
        ensures
            r == self@.alive_at(x + dx, y + dy),
    {
        if (dx < 0 && x == 0) || (dy < 0 && y == 0) || (dx > 0 && x >= self.width) || (dy > 0
            && y >= self.height) {
            return false;
        }
        let nx = if dx < 0 {
            x - 1
        } else if dx > 0 {
            x + 1
        } else {
            x
        };
        let ny = if dy < 0 {
            y - 1
        } else if dy > 0 {
            y + 1
        } else {
            y
        };
        self.is_alive(nx, ny)
    }

    /// Number of living cells among the eight around `(x, y)`.
    pub fn count_alive_neighbors(&self, x: usize, y: usize) -> (r: usize)
        requires
            self.wf(),
        ensures
            r as int == self@.neighbors(x as int, y as int),
            r <= 8,
    {
        let mut count: usize = 0;
        if self.is_alive_offset(x, y, 0, 1) {
            count += 1;
        }
        if self.is_alive_offset(x, y, 0, -1) {
            count += 1;
        }
        if self.is_alive_offset(x, y, 1, 0) {
            count += 1;
        }
        if self.is_alive_offset(x, y, -1, 0) {
            count += 1;
        }
        if self.is_alive_offset(x, y, 1, 1) {
            count += 1;
        }
        if self.is_alive_offset(x, y, -1, -1) {
            count += 1;
        }
        if self.is_alive_offset(x, y, 1, -1) {
            count += 1;
        }
        if self.is_alive_offset(x, y, -1, 1) {
            count += 1;
        }
        count
    }

    /// The neighbour count that the rule sees at flat index `i`: zero on the
    /// frame.
    fn count_at_index(&self, i: usize) -> (r: usize)
        requires
            self.wf(),
            i < self.cells@.len(),
        ensures
            r as int == self@.count_at(i as int),
    {
        proof {
            lemma_index_split(self@, i as int);
        }
        let x = i % self.width;
        let y = i / self.width;
        if x != 0 && y != 0 && x < self.width - 1 && y < self.height - 1 {
            self.count_alive_neighbors(x, y)
        } else {
            0
        }
    }

    /// The neighbour count of every cell, in index order, computed in
    /// parallel from this generation alone: zero on the frame.
    pub fn compute_count(&self) -> (r: Vec<usize>)
        requires
            self.wf(),
        ensures
            r@.len() == self.cells@.len(),
            forall|i: int| 0 <= i < r@.len() ==> r@[i] as int == #[trigger] self@.count_at(i),
    {
        par_counts(self)
    }

    /// The next generation, with the time its computation took.
    pub fn tick(&self) -> (r: World)
        requires
            self.wf(),
        ensures
            r.wf(),
            r.width == self.width,
            r.height == self.height,
            r@ == self@.step(),
            r@.border_dead(),
    {
        let start = Instant::now();
        let counts = self.compute_count();
        let n = self.cells.len();
        let mut cells: Vec<Cell> = Vec::with_capacity(n);
        let mut i: usize = 0;
        while i < n
            invariant
                self.wf(),
                n == self.cells@.len(),
                counts@.len() == n,
                forall|j: int| 0 <= j < n ==> counts@[j] as int == #[trigger] self@.count_at(j),
                i <= n,
                cells@.len() == i,
                forall|j: int|
                    0 <= j < i ==> (#[trigger] cells@[j]).alive == survives(
                        self@.cells[j],
                        self@.count_at(j),
                    ),
            decreases n - i,
        {
            cells.push(Cell::new(next_alive(self.cells[i].alive, counts[i])));
            i += 1;
        }
        let elapsed = start.elapsed();
        let r = World {
            cells,
            width: self.width,
            height: self.height,
            tick_time_ms: elapsed.as_millis(),
        };
        assert(r@.cells =~= self@.step().cells);
        proof {
            lemma_step_border_dead(self@);
        }
        r
    }

    /// A world of the same dimensions whose cells are all dead.
    pub fn clear(&self) -> (r: World)
        requires
            self.wf(),
        ensures
            r.wf(),
            r@ == Grid::all_dead(self.width as int, self.height as int),
            r.tick_time_ms == 0,
    {
        World::new(self.width, self.height)
    }

    /// A fresh random world of the same dimensions.
    pub fn random(&self) -> (r: World)
        requires
            self.wf(),
        ensures
            r.wf(),
            r.width == self.width,
            r.height == self.height,
            r.tick_time_ms == 0,
            r@.border_dead(),
    {
        World::new_random(self.width, self.height)
    }

    /// The grid as text: one glyph per cell, and a line break after each row.
    pub fn to_string(&self) -> (r: String)
        requires
            self.wf(),
        ensures
            r@ == self@.text(),
    {
        let n = self.cells.len();
        let mut s = String::new();
        let mut i: usize = 0;
        while i < n
            invariant
                self.wf(),
                n == self.cells@.len(),
                i <= n,
                s@ == self@.text_prefix(i as nat),
            decreases n - i,
        {
            s.push(self.cells[i].glyph());
            if i % self.width == self.width - 1 {
                s.push('\n');
            }
            proof {
                let g = glyph_of(self@.cells[i as int]);
                assert(s@ =~= self@.text_prefix(i as nat).push(g) + self@.line_end(i as int));
            }
            i += 1;
        }
        s
    }
}

/// Whether flat index `i` of a `width` by `height` grid lies strictly inside
/// the dead frame.
pub open spec fn interior_index(width: int, height: int, i: int) -> bool {
    0 < i % width < width - 1 && 0 < i / width < height - 1
}

/// The draws for a random world: exactly one draw below `LIVE_ODDS` for each
/// interior cell, and none (`None`) for a cell of the frame.
pub open spec fn draws_shaped(width: int, height: int, draws: Seq<Option<u32>>) -> bool {
    &&& draws.len() == width * height
    &&& forall|i: int|
        0 <= i < draws.len() ==> (#[trigger] draws[i] is Some <==> interior_index(width, height, i))
    &&& forall|i: int|
        0 <= i < draws.len() && #[trigger] draws[i] is Some ==> draws[i].unwrap() < LIVE_ODDS
}

/// Draws from `rng`, in increasing index order, one for each interior cell
/// and none for a cell of the frame.
fn random_draws(width: usize, height: usize, rng: &mut StdRng) -> (r: Vec<Option<u32>>)
    requires
        dimensions_ok(width, height),
    ensures
        draws_shaped(width as int, height as int, r@),
{
    let n = width * height;
    let mut draws: Vec<Option<u32>> = Vec::with_capacity(n);
    let mut i: usize = 0;
    while i < n
        invariant
            n == width * height,
            i <= n,
            draws@.len() == i,
            forall|j: int|
                0 <= j < i ==> (#[trigger] draws@[j] is Some <==> interior_index(
                    width as int,
                    height as int,
                    j,
                )),
            forall|j: int|
                0 <= j < i && #[trigger] draws@[j] is Some ==> draws@[j].unwrap() < LIVE_ODDS,
        decreases n - i,
    {
        let x = i % width;
        let y = i / width;
        if x != 0 && y != 0 && x < width - 1 && y < height - 1 {
            draws.push(Some(draw_below(rng, LIVE_ODDS)));
        } else {
            draws.push(None);
        }
        i += 1;
    }
    draws
}

/// For each index, whether a random world has a living cell there, given
/// the draws: an interior cell lives exactly when its draw is zero, which is
/// one draw in `LIVE_ODDS`; a cell of the frame is dead.
pub fn live_from_draws(width: usize, height: usize, draws: &Vec<Option<u32>>) -> (r: Vec<bool>)
    requires
        dimensions_ok(width, height),
        draws@.len() == width * height,
    ensures
        r@.len() == draws@.len(),
        forall|i: int|
            0 <= i < r@.len() ==> #[trigger] r@[i] == (interior_index(width as int, height as int, i)
                && draws@[i] == Some(0u32)),
{
    let n = width * height;
    let mut live: Vec<bool> = Vec::with_capacity(n);
    let mut i: usize = 0;
    while i < n
        invariant
            n == width * height,
            draws@.len() == n,
            i <= n,
            live@.len() == i,
            forall|j: int|
                0 <= j < i ==> #[trigger] live@[j] == (interior_index(width as int, height as int, j)
                    && draws@[j] == Some(0u32)),
        decreases n - i,
    {
        let x = i % width;
        let y = i / width;
        let interior = x != 0 && y != 0 && x < width - 1 && y < height - 1;
        let alive = match draws[i] {
            Some(d) => interior && d == 0,
            None => false,
        };
        live.push(alive);
        i += 1;
    }
    live
}

} // verus!
