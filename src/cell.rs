use vstd::prelude::*;

verus! {

/// A single unit of the grid: living or dead.
#[derive(Debug, Copy, Clone, PartialEq, Eq, Structural)]
pub struct Cell {
    pub alive: bool,
}

/// Glyph of a living cell in text output.
pub const ALIVE_GLYPH: char = '⬛';

/// Glyph of a dead cell in text output.
pub const DEAD_GLYPH: char = '⬜';

/// The glyph that stands for a cell that is alive or dead.
pub open spec fn glyph_of(alive: bool) -> char {
    if alive {
        ALIVE_GLYPH
    } else {
        DEAD_GLYPH
    }
}

impl Cell {
    pub fn new(alive: bool) -> (r: Cell)
        ensures
            r.alive == alive,
    {
        Cell { alive }
    }

    /// The character that stands for this cell in text output.
    pub fn glyph(&self) -> (r: char)
        ensures
            r == glyph_of(self.alive),
    {
        if self.alive {
            ALIVE_GLYPH
        } else {
            DEAD_GLYPH
        }
    }
}

} // verus!
