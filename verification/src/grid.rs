//! The cell grid: a row-major store of styled characters.

use vstd::prelude::*;
use vstd::arithmetic::div_mod::{
    lemma_fundamental_div_mod,
    lemma_fundamental_div_mod_converse,
    lemma_mod_pos_bound,
};
use crate::cell::Cell;
use crate::util::WindowBounds;

verus! {

/// The mathematical grid: `cells` holds the rows one after another, so the
/// cell at column `x` and row `y` is `cells[y * width + x]`.
pub struct GridView {
    pub width: nat,
    pub height: nat,
    pub cells: Seq<Cell>,
}

impl GridView {
    /// The grid has exactly one cell for each position, and sixteen bits
    /// can number its columns and rows.
    pub open spec fn wf(self) -> bool {
        &&& self.cells.len() == self.width * self.height
        &&& self.width <= 0xffff
        &&& self.height <= 0xffff
    }

    /// Whether column `x`, row `y` is a position of the grid.
    pub open spec fn contains(self, x: int, y: int) -> bool {
        0 <= x < self.width && 0 <= y < self.height
    }

    /// The place of column `x`, row `y` in `cells`.
    pub open spec fn index(self, x: int, y: int) -> int {
        y * self.width + x
    }

    /// The cell at column `x`, row `y`.
    pub open spec fn at(self, x: int, y: int) -> Cell {
        self.cells[self.index(x, y)]
    }

    /// The grid of the given size with every cell equal to `cell`.
    pub open spec fn filled(width: nat, height: nat, cell: Cell) -> GridView {
        GridView { width, height, cells: Seq::new(width * height, |i: int| cell) }
    }

    /// The grid with the cell at column `x`, row `y` replaced by `cell`.
    pub open spec fn set(self, x: int, y: int, cell: Cell) -> GridView {
        GridView { cells: self.cells.update(self.index(x, y), cell), ..self }
    }

    /// Whether `rect` has no cell outside the grid.
    pub open spec fn covers(self, rect: WindowBounds) -> bool {
        rect.x + rect.width <= self.width && rect.y + rect.height <= self.height
    }

    /// The grid with every cell in `rect` replaced by `cell`.
    pub open spec fn with_rect(self, rect: WindowBounds, cell: Cell) -> GridView {
        GridView {
            cells: Seq::new(
                self.cells.len(),
                |i: int|
                    if rect.contains(i % (self.width as int), i / (self.width as int)) {
                        cell
                    } else {
                        self.cells[i]
                    },
            ),
            ..self
        }
    }

    /// The grid of the given size that agrees with this one wherever both
    /// have a cell, and holds `cell` everywhere else.
    pub open spec fn resized(self, width: nat, height: nat, cell: Cell) -> GridView {
        GridView {
            width,
            height,
            cells: Seq::new(
                width * height,
                |i: int|
                    if i % (width as int) < self.width && i / (width as int) < self.height {
                        self.at(i % (width as int), i / (width as int))
                    } else {
                        cell
                    },
            ),
        }
    }
}

/// Every position of a grid has a place in its cells, and no two share one.
pub proof fn lemma_index_in_bounds(width: nat, height: nat, x: int, y: int)
    requires
        0 <= x < width,
        0 <= y < height,
    ensures
        0 <= y * width <= y * width + x < width * height,
        (y * width + x) % (width as int) == x,
        (y * width + x) / (width as int) == y,
{
    assert(0 <= y * width <= y * width + x < width * height) by (nonlinear_arith)
        requires
            0 <= x < width,
            0 <= y < height,
    ;
    lemma_fundamental_div_mod_converse(y * width + x, width as int, y, x);
}

/// Every place in the cells of a grid is that of exactly one position.
pub proof fn lemma_position_of_index(width: nat, height: nat, i: int)
    requires
        0 <= i < width * height,
    ensures
        width > 0,
        0 <= i % (width as int) < width,
        0 <= i / (width as int) < height,
        i == (i / (width as int)) * width + i % (width as int),
{
    assert(width > 0) by (nonlinear_arith)
        requires
            0 <= i < width * height,
    ;
    let w = width as int;
    lemma_fundamental_div_mod(i, w);
    lemma_mod_pos_bound(i, w);
    let q = i / w;
    let r = i % w;
    assert(0 <= q < height && i == q * w + r) by (nonlinear_arith)
        requires
            i == w * q + r,
            0 <= r < w,
            0 <= i < w * height,
    ;
}

/// A resized grid has a cell for every position of its new size. At each
/// position that the old grid has too it holds the old cell, and at every
/// other position it holds `cell`.
pub proof fn lemma_resized_cells(
    grid: GridView,
    width: nat,
    height: nat,
    cell: Cell,
    x: int,
    y: int,
)
    requires
        0 <= x < width <= 0xffff,
        0 <= y < height <= 0xffff,
    ensures
        grid.resized(width, height, cell).wf(),
        grid.resized(width, height, cell).at(x, y) == if x < grid.width && y < grid.height {
            grid.at(x, y)
        } else {
            cell
        },
{
    lemma_index_in_bounds(width, height, x, y);
}

/// A grid with a rectangle filled holds `cell` at every position in the
/// rectangle, and the cell it held at every other position.
pub proof fn lemma_with_rect_cells(grid: GridView, rect: WindowBounds, cell: Cell, x: int, y: int)
    requires
        grid.wf(),
        grid.contains(x, y),
    ensures
        grid.with_rect(rect, cell).wf(),
        grid.with_rect(rect, cell).at(x, y) == if rect.contains(x, y) {
            cell
        } else {
            grid.at(x, y)
        },
{
    lemma_index_in_bounds(grid.width, grid.height, x, y);
}

/// To fill the rectangle of the whole grid is to fill the grid.
pub proof fn lemma_with_rect_of_whole_grid(grid: GridView, rect: WindowBounds, cell: Cell)
    requires
        grid.wf(),
        rect.x == 0,
        rect.y == 0,
        rect.width == grid.width,
        rect.height == grid.height,
    ensures
        grid.with_rect(rect, cell) == GridView::filled(grid.width, grid.height, cell),
{
    let filled = grid.with_rect(rect, cell);
    assert forall|i: int| 0 <= i < filled.cells.len() implies filled.cells[i] == cell by {
        lemma_position_of_index(grid.width, grid.height, i);
    }
    assert(filled.cells =~= GridView::filled(grid.width, grid.height, cell).cells);
}

/// A grid whose sides fit in sixteen bits has fewer than 2^32 cells.
pub proof fn lemma_area_bound(width: nat, height: nat)
    requires
        width <= 0xffff,
        height <= 0xffff,
    ensures
        width * height <= 0xfffe_0001,
        width * height <= usize::MAX,
{
    assert(width * height <= 0xfffe_0001) by (nonlinear_arith)
        requires
            width <= 0xffff,
            height <= 0xffff,
    ;
}

/// A grid of cells with a fixed width and height.
#[derive(Debug, Clone)]
pub struct Grid {
    cells: Vec<Cell>,
    width: u16,
    height: u16,
}

impl View for Grid {
    type V = GridView;

    closed spec fn view(&self) -> GridView {
        GridView { width: self.width as nat, height: self.height as nat, cells: self.cells@ }
    }
}

impl Grid {
    /// A grid of the given size with every cell equal to `cell`.
    pub fn new(width: u16, height: u16, cell: Cell) -> (grid: Grid)
        ensures
            grid@ == GridView::filled(width as nat, height as nat, cell),
            grid@.wf(),
    {
        proof {
            lemma_area_bound(width as nat, height as nat);
        }
        let n: usize = width as usize * height as usize;
        let cells = vec![cell; n];
        assert(cells@ =~= Seq::new(width as nat * height as nat, |i: int| cell));
        Grid { cells, width, height }
    }

    /// The number of columns.
    pub fn width(&self) -> (w: u16)
        ensures
            w == self@.width,
    {
        self.width
    }

    /// The number of rows.
    pub fn height(&self) -> (h: u16)
        ensures
            h == self@.height,
    {
        self.height
    }

    /// The number of cells.
    pub fn len(&self) -> (n: usize)
        ensures
            n == self@.cells.len(),
    {
        self.cells.len()
    }

    /// The cell at place `i` of the rows laid end to end.
    pub fn cell(&self, i: usize) -> (cell: Cell)
        requires
            i < self@.cells.len(),
        ensures
            cell == self@.cells[i as int],
    {
        self.cells[i]
    }

    /// The cell at column `x`, row `y`.
    pub fn get(&self, x: u16, y: u16) -> (cell: Cell)
        requires
            self@.wf(),
            self@.contains(x as int, y as int),
        ensures
            cell == self@.at(x as int, y as int),
    {
        proof {
            lemma_area_bound(self.width as nat, self.height as nat);
            lemma_index_in_bounds(self.width as nat, self.height as nat, x as int, y as int);
        }
        self.cells[y as usize * self.width as usize + x as usize]
    }

    /// Replaces every cell by `cell`.
    pub fn fill(&mut self, cell: Cell)
        requires
            old(self)@.wf(),
        ensures
            final(self)@ == GridView::filled(old(self)@.width, old(self)@.height, cell),
            final(self)@.wf(),
    {
        let n: usize = self.cells.len();
        let mut i: usize = 0;
        while i < n
            invariant
                i <= n,
                n == self.cells@.len(),
                self.width == old(self).width,
                self.height == old(self).height,
                forall|k: int| 0 <= k < i ==> self.cells@[k] == cell,
            decreases n - i,
        {
            self.cells.set(i, cell);
            i += 1;
        }
        assert(self.cells@ =~= Seq::new(self.width as nat * self.height as nat, |k: int| cell));
    }

    /// Makes every cell equal to the cell of `other` at the same position.
    pub fn copy_from(&mut self, other: &Grid)
        requires
            old(self)@.wf(),
            other@.wf(),
            other@.width == old(self)@.width,
            other@.height == old(self)@.height,
        ensures
            final(self)@ == other@,
    {
        let n: usize = self.cells.len();
        let mut i: usize = 0;
        while i < n
            invariant
                i <= n,
                n == self.cells@.len(),
                n == other.cells@.len(),
                self.width == old(self).width,
                self.height == old(self).height,
                forall|k: int| 0 <= k < i ==> self.cells@[k] == other.cells@[k],
            decreases n - i,
        {
            self.cells.set(i, other.cells[i]);
            i += 1;
        }
        assert(self.cells@ =~= other.cells@);
    }

    /// Replaces every cell in `rect` by `cell`.
    pub fn fill_rect(&mut self, rect: WindowBounds, cell: Cell)
        requires
            old(self)@.wf(),
            old(self)@.covers(rect),
        ensures
            final(self)@ == old(self)@.with_rect(rect, cell),
            final(self)@.wf(),
    {
        let ghost before = self.cells@;
        let ghost w = self.width as int;
        let width: usize = self.width as usize;
        let x_end: u16 = rect.x + rect.width;
        let y_end: u16 = rect.y + rect.height;
        let mut y: u16 = rect.y;
        proof {
            lemma_area_bound(self.width as nat, self.height as nat);
        }
        while y < y_end
            invariant
                rect.y <= y <= y_end,
                y_end == rect.y + rect.height,
                x_end == rect.x + rect.width,
                x_end <= self.width,
                y_end <= self.height,
                self.width == old(self).width,
                self.height == old(self).height,
                width == self.width,
                w == self.width,
                before == old(self).cells@,
                before.len() == self.width * self.height,
                before.len() <= usize::MAX,
                self.cells@.len() == before.len(),
                forall|i: int|
                    0 <= i < before.len() ==> #[trigger] self.cells@[i] == if rect.contains(
                        i % w,
                        i / w,
                    ) && i / w < y {
                        cell
                    } else {
                        before[i]
                    },
            decreases y_end - y,
        {
            let mut x: u16 = rect.x;
            while x < x_end
                invariant
                    rect.x <= x <= x_end,
                    rect.y <= y < y_end,
                    y_end == rect.y + rect.height,
                    x_end == rect.x + rect.width,
                    x_end <= self.width,
                    y_end <= self.height,
                    self.width == old(self).width,
                    self.height == old(self).height,
                    width == self.width,
                    w == self.width,
                    before.len() == self.width * self.height,
                    before.len() <= usize::MAX,
                    self.cells@.len() == before.len(),
                    forall|i: int|
                        0 <= i < before.len() ==> #[trigger] self.cells@[i] == if rect.contains(
                            i % w,
                            i / w,
                        ) && (i / w < y || (i / w == y && i % w < x)) {
                            cell
                        } else {
                            before[i]
                        },
                decreases x_end - x,
            {
                proof {
                    lemma_index_in_bounds(
                        self.width as nat,
                        self.height as nat,
                        x as int,
                        y as int,
                    );
                }
                let j: usize = y as usize * width + x as usize;
                let ghost prior = self.cells@;
                self.cells.set(j, cell);
                assert forall|i: int| 0 <= i < before.len() implies #[trigger] self.cells@[i]
                    == if rect.contains(i % w, i / w) && (i / w < y || (i / w == y && i % w < x
                    + 1)) {
                    cell
                } else {
                    before[i]
                } by {
                    lemma_position_of_index(self.width as nat, self.height as nat, i);
                    assert(self.cells@[i] == if i == j {
                        cell
                    } else {
                        prior[i]
                    });
                }
                x += 1;
            }
            y += 1;
        }
        assert(self.cells@ =~= old(self)@.with_rect(rect, cell).cells);
    }

    /// A grid of the given size that agrees with this one wherever both have
    /// a cell, and holds `cell` everywhere else.
    pub fn resized(&self, width: u16, height: u16, cell: Cell) -> (grid: Grid)
        requires
            self@.wf(),
        ensures
            grid@ == self@.resized(width as nat, height as nat, cell),
            grid@.wf(),
    {
        proof {
            lemma_area_bound(width as nat, height as nat);
            lemma_area_bound(self.width as nat, self.height as nat);
        }
        let n: usize = width as usize * height as usize;
        let mut cells = vec![cell; n];
        let common_width: u16 = if self.width < width {
            self.width
        } else {
            width
        };
        let common_height: u16 = if self.height < height {
            self.height
        } else {
            height
        };
        let ghost w = width as int;
        let mut y: u16 = 0;
        while y < common_height
            invariant
                self@.wf(),
                y <= common_height,
                common_width <= self.width,
                common_width <= width,
                common_height <= self.height,
                common_height <= height,
                common_width == self.width || common_width == width,
                w == width,
                cells@.len() == width * height,
                width * height <= usize::MAX,
                self.width * self.height <= usize::MAX,
                forall|i: int|
                    0 <= i < cells@.len() ==> #[trigger] cells@[i] == if i % w < self.width && i
                        / w < y {
                        self@.at(i % w, i / w)
                    } else {
                        cell
                    },
            decreases common_height - y,
        {
            let mut x: u16 = 0;
            while x < common_width
                invariant
                    self@.wf(),
                    x <= common_width,
                    y < common_height,
                    common_width <= self.width,
                    common_width <= width,
                    common_height <= self.height,
                    common_height <= height,
                    common_width == self.width || common_width == width,
                    w == width,
                    cells@.len() == width * height,
                    width * height <= usize::MAX,
                    self.width * self.height <= usize::MAX,
                    forall|i: int|
                        0 <= i < cells@.len() ==> #[trigger] cells@[i] == if i % w < self.width
                            && (i / w < y || (i / w == y && i % w < x)) {
                            self@.at(i % w, i / w)
                        } else {
                            cell
                        },
                decreases common_width - x,
            {
                proof {
                    lemma_index_in_bounds(width as nat, height as nat, x as int, y as int);
                    lemma_index_in_bounds(
                        self.width as nat,
                        self.height as nat,
                        x as int,
                        y as int,
                    );
                }
                let from: usize = y as usize * self.width as usize + x as usize;
                let to: usize = y as usize * width as usize + x as usize;
                let ghost prior = cells@;
                cells.set(to, self.cells[from]);
                assert forall|i: int| 0 <= i < cells@.len() implies #[trigger] cells@[i] == if i
                    % w < self.width && (i / w < y || (i / w == y && i % w < x + 1)) {
                    self@.at(i % w, i / w)
                } else {
                    cell
                } by {
                    lemma_position_of_index(width as nat, height as nat, i);
                    assert(cells@[i] == if i == to {
                        self.cells@[from as int]
                    } else {
                        prior[i]
                    });
                }
                x += 1;
            }
            y += 1;
        }
        assert(cells@ =~= self@.resized(width as nat, height as nat, cell).cells) by {
            assert forall|i: int| 0 <= i < cells@.len() implies cells@[i] == self@.resized(
                width as nat,
                height as nat,
                cell,
            ).cells[i] by {
                lemma_position_of_index(width as nat, height as nat, i);
            }
        }
        Grid { cells, width, height }
    }

    /// Replaces the cell at column `x`, row `y`.
    pub fn set(&mut self, x: u16, y: u16, cell: Cell)
        requires
            old(self)@.wf(),
            old(self)@.contains(x as int, y as int),
        ensures
            final(self)@ == old(self)@.set(x as int, y as int, cell),
            final(self)@.wf(),
    {
        proof {
            lemma_area_bound(self.width as nat, self.height as nat);
            lemma_index_in_bounds(self.width as nat, self.height as nat, x as int, y as int);
        }
        let i: usize = y as usize * self.width as usize + x as usize;
        self.cells.set(i, cell);
    }
}

} // verus!
