//! The grid as text: one glyph per cell, row after row, nothing in between.

use crate::universe::Universe;
use vstd::prelude::*;

verus! {

/// The glyph of a live cell, a black medium square.
pub const ALIVE_GLYPH: char = '\u{25FC}';

/// The glyph of a dead cell, a white medium square.
pub const DEAD_GLYPH: char = '\u{25FB}';

/// The glyph that stands for a cell.
pub open spec fn glyph(alive: bool) -> char {
    if alive {
        ALIVE_GLYPH
    } else {
        DEAD_GLYPH
    }
}

/// `String::push`: appends one character to the end of the string.
pub assume_specification[ String::push ](text: &mut String, c: char)
    ensures
        final(text)@ == old(text)@.push(c),
;

impl Universe {
    /// Draws the current generation: the glyph of every cell in row-major
    /// order, with no separator between the rows.
    pub fn render(&self) -> (text: String)
        requires
            self.wf(),
        ensures
            text@ == Seq::new(self@.cells.len(), |i: int| glyph(self@.cells[i])),
    {
        let mut text = String::new();
        let width = self.width();
        let height = self.height();
        proof {
            self.lemma_wf();
            assert(0 * width == 0) by (nonlinear_arith);
        }
        for row in 0..height
            invariant
                self.wf(),
                self@.width == width,
                self@.height == height,
                text@ == Seq::new((row * width) as nat, |i: int| glyph(self@.cells[i])),
        {
            for column in 0..width
                invariant
                    self.wf(),
                    self@.width == width,
                    self@.height == height,
                    row < height,
                    text@ == Seq::new((row * width + column) as nat, |i: int| glyph(self@.cells[i])),
            {
                let symbol = if self.is_alive(row, column) {
                    ALIVE_GLYPH
                } else {
                    DEAD_GLYPH
                };
                text.push(symbol);
            }
            assert(row * width + width == (row + 1) * width) by (nonlinear_arith);
        }
        proof {
            assert(height * width == width * height) by (nonlinear_arith);
        }
        text
    }
}

} // verus!
