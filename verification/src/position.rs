//! Coordinates in a document: a column counted in grapheme clusters and a row.

use vstd::prelude::*;

verus! {

/// A place in a document, or the corner of the window onto it.
///
/// `x` is the column, counted in grapheme clusters within the row; `y` is the
/// index of the row.
#[derive(Clone, Copy, Debug, PartialEq, Eq, Structural)]
pub struct Position {
    pub x: usize,
    pub y: usize,
}

impl Default for Position {
    /// The top left corner.
    fn default() -> (position: Position)
        ensures
            position == (Position { x: 0, y: 0 }),
    {
        Position { x: 0, y: 0 }
    }
}

impl Position {
    /// Moves to column `x`; the row stays.
    pub fn set_position_x(&mut self, x: usize)
        ensures
            *final(self) == (Position { x, y: old(self).y }),
    {
        self.x = x;
    }

    /// Moves to row `y`; the column stays.
    pub fn set_position_y(&mut self, y: usize)
        ensures
            *final(self) == (Position { x: old(self).x, y }),
    {
        self.y = y;
    }
}

} // verus!
