//! One character position of the grid.

use vstd::prelude::*;
use crate::color::Color;

verus! {

/// A character with its foreground and background color.
#[derive(Debug, Clone, Copy, PartialEq, Eq, Structural)]
pub struct Cell {
    pub fg_color: Color,
    pub bg_color: Color,
    pub c: char,
}

impl Cell {
    /// The character of an empty cell.
    pub const EMPTY_CHAR: char = ' ';

    /// The empty cell as a value of specifications.
    pub open spec fn empty_spec() -> Cell {
        Cell { fg_color: Color::Reset, bg_color: Color::Reset, c: ' ' }
    }

    /// The empty cell: a space in the reset colors. Grids are filled with it.
    #[verifier::when_used_as_spec(empty_spec)]
    pub fn empty() -> (cell: Cell)
        ensures
            cell == Cell::empty_spec(),
    {
        Cell { fg_color: Color::Reset, bg_color: Color::Reset, c: ' ' }
    }

    /// The cell that shows `c` in the given colors.
    pub fn new(fg_color: Color, bg_color: Color, c: char) -> (cell: Cell)
        ensures
            cell == (Cell { fg_color, bg_color, c }),
    {
        Cell { fg_color, bg_color, c }
    }
}

} // verus!
