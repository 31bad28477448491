//! Points and rectangles of the character grid.

use vstd::prelude::*;
use vstd::math::{max, min};

verus! {

/// A position, as column and row.
#[derive(Debug, Clone, Copy, PartialEq, Eq, Structural)]
pub struct Point {
    pub x: u16,
    pub y: u16,
}

impl Point {
    /// The point at column `x` and row `y`.
    pub fn new(x: u16, y: u16) -> (p: Point)
        ensures
            p == (Point { x, y }),
    {
        Point { x, y }
    }

    /// The point at column 0 and row 0.
    pub open spec fn zero_spec() -> Point {
        Point { x: 0, y: 0 }
    }

    /// The point at column 0 and row 0.
    #[verifier::when_used_as_spec(zero_spec)]
    pub fn zero() -> (p: Point)
        ensures
            p == Point::zero_spec(),
    {
        Point { x: 0, y: 0 }
    }
}

/// A rectangle of the grid: its left column and top row, in columns and rows
/// of the whole grid, and its size.
#[derive(Debug, Clone, Copy, PartialEq, Eq, Structural)]
pub struct WindowBounds {
    pub x: u16,
    pub y: u16,
    pub width: u16,
    pub height: u16,
}

impl WindowBounds {
    /// The rectangle with the given corner and size.
    pub fn new(x: u16, y: u16, width: u16, height: u16) -> (bounds: WindowBounds)
        ensures
            bounds == (WindowBounds { x, y, width, height }),
    {
        WindowBounds { x, y, width, height }
    }

    /// Whether column `x`, row `y` of the grid lies in the rectangle.
    pub open spec fn contains(self, x: int, y: int) -> bool {
        self.x <= x < self.x + self.width && self.y <= y < self.y + self.height
    }

    /// Whether the rectangle has a cell, and no cell outside `outer`.
    pub open spec fn fits_in(self, outer: WindowBounds) -> bool {
        &&& self.width >= 1
        &&& self.height >= 1
        &&& outer.x <= self.x
        &&& self.x + self.width <= outer.x + outer.width
        &&& outer.y <= self.y
        &&& self.y + self.height <= outer.y + outer.height
    }

    /// Whether the point, taken as an offset from the rectangle's corner,
    /// lies in the rectangle.
    pub open spec fn holds(self, p: Point) -> bool {
        p.x < self.width && p.y < self.height
    }

    /// The number of cells of the rectangle.
    pub open spec fn area(self) -> int {
        self.width * self.height
    }

    /// The place of the point among the cells of the rectangle, counted row
    /// by row from its corner.
    pub open spec fn offset_of(self, p: Point) -> int {
        p.y * self.width + p.x
    }

    /// The point at the given place among the cells of the rectangle, as
    /// an offset from its corner.
    pub open spec fn point_at(self, offset: int) -> Point {
        Point { x: (offset % self.width as int) as u16, y: (offset / self.width as int) as u16 }
    }

    /// The cursor after the end of a line: at the left edge of the next
    /// row, or of the top row after the last.
    pub open spec fn next_line_spec(self, cursor: Point) -> Point {
        Point { x: 0, y: if cursor.y + 1 >= self.height { 0 } else { (cursor.y + 1) as u16 } }
    }

    /// The cursor after the end of a line: at the left edge of the next
    /// row, or of the top row after the last.
    #[verifier::when_used_as_spec(next_line_spec)]
    pub fn next_line(self, cursor: Point) -> (next: Point)
        ensures
            next == self.next_line_spec(cursor),
            self.width >= 1 && self.height >= 1 ==> self.holds(next),
    {
        if cursor.y == u16::MAX || cursor.y + 1 >= self.height {
            Point { x: 0, y: 0 }
        } else {
            Point { x: 0, y: cursor.y + 1 }
        }
    }

    /// The cursor after a character: one column on, or on the next line
    /// after the last column.
    pub open spec fn advance_spec(self, cursor: Point) -> Point {
        if cursor.x + 1 >= self.width {
            self.next_line_spec(cursor)
        } else {
            Point { x: (cursor.x + 1) as u16, y: cursor.y }
        }
    }

    /// The cursor after a character: one column on, or on the next line
    /// after the last column.
    #[verifier::when_used_as_spec(advance_spec)]
    pub fn advance(self, cursor: Point) -> (next: Point)
        ensures
            next == self.advance_spec(cursor),
            self.holds(cursor) ==> self.holds(next),
    {
        if cursor.x == u16::MAX || cursor.x + 1 >= self.width {
            self.next_line(cursor)
        } else {
            Point { x: cursor.x + 1, y: cursor.y }
        }
    }

    /// The point with its column and row cut down to the last ones of the
    /// rectangle.
    pub open spec fn clamp_spec(self, p: Point) -> Point {
        Point {
            x: min(p.x as int, self.width - 1) as u16,
            y: min(p.y as int, self.height - 1) as u16,
        }
    }

    /// The point with its column and row cut down to the last ones of the
    /// rectangle.
    #[verifier::when_used_as_spec(clamp_spec)]
    pub fn clamp(self, p: Point) -> (inside: Point)
        requires
            self.width >= 1,
            self.height >= 1,
        ensures
            inside == self.clamp_spec(p),
            self.holds(inside),
            self.holds(p) ==> inside == p,
    {
        Point {
            x: if p.x < self.width - 1 {
                p.x
            } else {
                self.width - 1
            },
            y: if p.y < self.height - 1 {
                p.y
            } else {
                self.height - 1
            },
        }
    }

    /// Whether the rectangle has a cell and ends within the columns and
    /// rows that sixteen bits can number.
    pub open spec fn valid(self) -> bool {
        &&& self.width >= 1
        &&& self.height >= 1
        &&& self.x + self.width <= 0xffff
        &&& self.y + self.height <= 0xffff
    }

    /// The rectangle asked for at offset (`x`, `y`) from this one's corner
    /// with the given size, cut down to fit in this one: an offset past the
    /// last column or row becomes the last column or row, and the size is
    /// at least one cell and at most what is left from the corner on.
    pub open spec fn clip_spec(self, x: u16, y: u16, width: u16, height: u16) -> WindowBounds {
        let dx = min(x as int, self.width - 1);
        let dy = min(y as int, self.height - 1);
        WindowBounds {
            x: (self.x + dx) as u16,
            y: (self.y + dy) as u16,
            width: max(1, min(width as int, self.width - dx)) as u16,
            height: max(1, min(height as int, self.height - dy)) as u16,
        }
    }

    /// The rectangle asked for at offset (`x`, `y`) from this one's corner
    /// with the given size, cut down to fit in this one. Whatever is asked
    /// for, the result has a cell and lies in this rectangle.
    #[verifier::when_used_as_spec(clip_spec)]
    pub fn clip(self, x: u16, y: u16, width: u16, height: u16) -> (inner: WindowBounds)
        requires
            self.valid(),
        ensures
            inner == self.clip_spec(x, y, width, height),
            inner.fits_in(self),
            inner.valid(),
    {
        let dx: u16 = if x < self.width - 1 {
            x
        } else {
            self.width - 1
        };
        let dy: u16 = if y < self.height - 1 {
            y
        } else {
            self.height - 1
        };
        let room_x: u16 = self.width - dx;
        let room_y: u16 = self.height - dy;
        let w: u16 = if width < 1 {
            1
        } else if width < room_x {
            width
        } else {
            room_x
        };
        let h: u16 = if height < 1 {
            1
        } else if height < room_y {
            height
        } else {
            room_y
        };
        WindowBounds { x: self.x + dx, y: self.y + dy, width: w, height: h }
    }

    /// This rectangle moved and cut down to fit in `outer`: it keeps its
    /// corner and size if it fits already.
    pub open spec fn refit_spec(self, outer: WindowBounds) -> WindowBounds {
        outer.clip_spec(
            max(0, self.x - outer.x) as u16,
            max(0, self.y - outer.y) as u16,
            self.width,
            self.height,
        )
    }

    /// This rectangle moved and cut down to fit in `outer`.
    #[verifier::when_used_as_spec(refit_spec)]
    pub fn refit(self, outer: WindowBounds) -> (inner: WindowBounds)
        requires
            outer.valid(),
        ensures
            inner == self.refit_spec(outer),
            inner.fits_in(outer),
            inner.valid(),
            self.fits_in(outer) ==> inner == self,
    {
        let dx: u16 = if self.x > outer.x {
            self.x - outer.x
        } else {
            0
        };
        let dy: u16 = if self.y > outer.y {
            self.y - outer.y
        } else {
            0
        };
        outer.clip(dx, dy, self.width, self.height)
    }
}

} // verus!
