//! The screen as a mathematical value, and each operation as a function on
//! it.

use vstd::prelude::*;
use vstd::math::max;
use crate::cell::Cell;
use crate::color::Color;
use crate::command::CommandView;
use crate::cursor::CursorStyle;
use crate::grid::GridView;
use crate::render::{all_cells, changed_cells, content_commands};
use crate::util::{Point, WindowBounds};
use crate::ClearType;

verus! {

/// The state of a screen.
///
/// `front` is what the application has written and `back` is what the
/// terminal shows. `windows` are the open windows, the outermost first; the
/// last is the active one. The cursors are offsets from the corner of the
/// active window. The shape and visibility of the cursor are kept twice: as
/// the application wants them, and as the terminal was last told.
pub struct ScreenView {
    pub front: GridView,
    pub back: GridView,
    pub windows: Seq<WindowBounds>,
    pub cursor: Point,
    pub stored_cursor: Point,
    pub fg_color: Color,
    pub bg_color: Color,
    pub cursor_style: CursorStyle,
    pub shown_cursor_style: CursorStyle,
    pub cursor_visible: bool,
    pub shown_cursor_visible: bool,
    pub force_redraw: bool,
}

/// The size that a screen takes when asked for `n` columns or rows: at
/// least one.
pub open spec fn side(n: u16) -> nat {
    max(1, n as int) as nat
}

/// The windows refitted from the outermost in: the first into `base`, each
/// other into the one before it as refitted.
pub open spec fn refit_all(windows: Seq<WindowBounds>, base: WindowBounds) -> Seq<WindowBounds>
    decreases windows.len(),
{
    if windows.len() == 0 {
        Seq::empty()
    } else {
        let outer = refit_all(windows.drop_last(), base);
        outer.push(
            windows.last().refit_spec(
                if outer.len() == 0 {
                    base
                } else {
                    outer.last()
                },
            ),
        )
    }
}

/// The window around window `i` of `windows`: the one before it, or `base`.
pub open spec fn outer_of(windows: Seq<WindowBounds>, base: WindowBounds, i: int) -> WindowBounds {
    if i <= 0 {
        base
    } else {
        windows[i - 1]
    }
}

/// Whether window `i` of `windows` lies in the window around it and in
/// `base`.
pub open spec fn nested_at(windows: Seq<WindowBounds>, base: WindowBounds, i: int) -> bool {
    windows[i].fits_in(outer_of(windows, base, i)) && windows[i].fits_in(base)
}

/// Refitted windows are as many as before, and each lies in the one around
/// it and in `base`.
pub proof fn lemma_refit_all_nested(windows: Seq<WindowBounds>, base: WindowBounds)
    requires
        base.valid(),
    ensures
        refit_all(windows, base).len() == windows.len(),
        forall|i: int|
            0 <= i < windows.len() ==> #[trigger] nested_at(refit_all(windows, base), base, i),
    decreases windows.len(),
{
    if windows.len() > 0 {
        let before = refit_all(windows.drop_last(), base);
        let after = refit_all(windows, base);
        lemma_refit_all_nested(windows.drop_last(), base);
        let outer = outer_of(before, base, before.len() as int);
        if before.len() > 0 {
            assert(nested_at(before, base, before.len() - 1));
        }
        assert(outer.fits_in(base) && outer.valid());
        assert(after == before.push(windows.last().refit_spec(outer)));
        assert forall|i: int| 0 <= i < windows.len() implies #[trigger] nested_at(
            after,
            base,
            i,
        ) by {
            if i < before.len() {
                assert(nested_at(before, base, i));
            }
        }
    }
}

/// Windows that lie each in the one around it stay as they are when they
/// are refitted into the same grid.
pub proof fn lemma_refit_all_keeps_nested(windows: Seq<WindowBounds>, base: WindowBounds)
    requires
        base.valid(),
        forall|i: int| 0 <= i < windows.len() ==> #[trigger] nested_at(windows, base, i),
    ensures
        refit_all(windows, base) == windows,
    decreases windows.len(),
{
    if windows.len() > 0 {
        let front = windows.drop_last();
        assert forall|i: int| 0 <= i < front.len() implies #[trigger] nested_at(front, base, i) by {
            assert(nested_at(windows, base, i));
        }
        lemma_refit_all_keeps_nested(front, base);
        assert(nested_at(windows, base, windows.len() - 1));
        assert(refit_all(windows, base) =~= windows);
    }
}

impl ScreenView {
    /// The rectangle of the whole grid.
    pub open spec fn base(self) -> WindowBounds {
        WindowBounds {
            x: 0,
            y: 0,
            width: self.front.width as u16,
            height: self.front.height as u16,
        }
    }

    /// The window around window `i`: the one opened before it, or the
    /// whole grid.
    pub open spec fn parent_of(self, i: int) -> WindowBounds {
        outer_of(self.windows, self.base(), i)
    }

    /// The window that cursor positions and writes refer to: the last one
    /// opened, or the whole grid.
    pub open spec fn active(self) -> WindowBounds {
        self.parent_of(self.windows.len() as int)
    }

    /// Whether window `i` lies in the window around it and in the grid.
    pub open spec fn window_fits(self, i: int) -> bool {
        nested_at(self.windows, self.base(), i)
    }

    /// The invariant of a screen: both grids have the same size, of at
    /// least one cell; every window lies in the one around it; and both
    /// cursors lie in the active window.
    pub open spec fn wf(self) -> bool {
        &&& self.front.wf()
        &&& self.back.wf()
        &&& self.back.width == self.front.width
        &&& self.back.height == self.front.height
        &&& self.front.width >= 1
        &&& self.front.height >= 1
        &&& forall|i: int| 0 <= i < self.windows.len() ==> #[trigger] self.window_fits(i)
        &&& self.active().holds(self.cursor)
        &&& self.active().holds(self.stored_cursor)
    }

    /// A new screen of the given size: empty grids, no window, the cursor
    /// at the top left, the reset colors, and a visible cursor of the
    /// user's shape.
    pub open spec fn new(width: u16, height: u16) -> ScreenView {
        ScreenView {
            front: GridView::filled(side(width), side(height), Cell::empty()),
            back: GridView::filled(side(width), side(height), Cell::empty()),
            windows: Seq::empty(),
            cursor: Point::zero(),
            stored_cursor: Point::zero(),
            fg_color: Color::Reset,
            bg_color: Color::Reset,
            cursor_style: CursorStyle::DefaultUserShape,
            shown_cursor_style: CursorStyle::DefaultUserShape,
            cursor_visible: true,
            shown_cursor_visible: true,
            force_redraw: false,
        }
    }

    /// A window is opened in the active one, cut down to fit, and both
    /// cursors go to its corner.
    pub open spec fn begin_window(self, x: u16, y: u16, width: u16, height: u16) -> ScreenView {
        ScreenView {
            windows: self.windows.push(self.active().clip_spec(x, y, width, height)),
            cursor: Point::zero(),
            stored_cursor: Point::zero(),
            ..self
        }
    }

    /// The point, an offset in the active window, as an offset in the
    /// window around it.
    pub open spec fn rebased(self, p: Point) -> Point {
        let inner = self.active();
        let outer = self.parent_of(self.windows.len() - 1);
        Point { x: (inner.x - outer.x + p.x) as u16, y: (inner.y - outer.y + p.y) as u16 }
    }

    /// The active window is closed; both cursors stay on the cells they
    /// were on. With no window open nothing changes.
    pub open spec fn end_window(self) -> ScreenView {
        if self.windows.len() == 0 {
            self
        } else {
            ScreenView {
                windows: self.windows.drop_last(),
                cursor: self.rebased(self.cursor),
                stored_cursor: self.rebased(self.stored_cursor),
                ..self
            }
        }
    }

    /// The cursor goes to the given column and row of the active window,
    /// or to the last one where that is past the edge.
    pub open spec fn move_to(self, x: u16, y: u16) -> ScreenView {
        ScreenView { cursor: self.active().clamp(Point { x, y }), ..self }
    }

    /// One character is printed: a newline takes the cursor to the next
    /// line; any other character is written under the cursor in the
    /// current colors, and the cursor advances.
    pub open spec fn print_char(self, c: char) -> ScreenView {
        let window = self.active();
        if c == '\n' {
            ScreenView { cursor: window.next_line(self.cursor), ..self }
        } else {
            ScreenView {
                front: self.front.set(
                    window.x + self.cursor.x,
                    window.y + self.cursor.y,
                    Cell { fg_color: self.fg_color, bg_color: self.bg_color, c },
                ),
                cursor: window.advance(self.cursor),
                ..self
            }
        }
    }

    /// The characters of `text` are printed one after another.
    pub open spec fn print(self, text: Seq<char>) -> ScreenView
        decreases text.len(),
    {
        if text.len() == 0 {
            self
        } else {
            self.print(text.drop_last()).print_char(text.last())
        }
    }

    /// The cursor is moved, then the text is printed.
    pub open spec fn print_at(self, x: u16, y: u16, text: Seq<char>) -> ScreenView {
        self.move_to(x, y).print(text)
    }

    /// The rectangle of the grid that a clear of the given kind empties.
    pub open spec fn clear_rect(self, ty: ClearType) -> WindowBounds {
        let window = self.active();
        match ty {
            ClearType::All => window,
            ClearType::CurrentLine => WindowBounds {
                x: window.x,
                y: (window.y + self.cursor.y) as u16,
                width: window.width,
                height: 1,
            },
            ClearType::UntilNewline => WindowBounds {
                x: (window.x + self.cursor.x) as u16,
                y: (window.y + self.cursor.y) as u16,
                width: (window.width - self.cursor.x) as u16,
                height: 1,
            },
            ClearType::Current => WindowBounds {
                x: (window.x + self.cursor.x) as u16,
                y: (window.y + self.cursor.y) as u16,
                width: 1,
                height: 1,
            },
        }
    }

    /// The cells that a clear of the given kind covers become empty.
    pub open spec fn clear(self, ty: ClearType) -> ScreenView {
        ScreenView { front: self.front.with_rect(self.clear_rect(ty), Cell::empty()), ..self }
    }

    /// The cursor position is stored.
    pub open spec fn save_cursor(self) -> ScreenView {
        ScreenView { stored_cursor: self.cursor, ..self }
    }

    /// The cursor goes to the stored position, cut down to the active
    /// window.
    pub open spec fn restore_cursor(self) -> ScreenView {
        ScreenView { cursor: self.active().clamp(self.stored_cursor), ..self }
    }

    /// Cells written from now on get these colors.
    pub open spec fn set_colors(self, fg_color: Color, bg_color: Color) -> ScreenView {
        ScreenView { fg_color, bg_color, ..self }
    }

    /// The application wants the cursor in this shape.
    pub open spec fn set_cursor_style(self, style: CursorStyle) -> ScreenView {
        ScreenView { cursor_style: style, ..self }
    }

    /// The application wants the cursor visible, or not.
    pub open spec fn set_cursor_visibility(self, visible: bool) -> ScreenView {
        ScreenView { cursor_visible: visible, ..self }
    }

    /// The screen takes a new size, of at least one column and one row.
    /// The front grid keeps the cells that the old size and the size asked
    /// for share, which are none where no column or no row is asked for,
    /// and is empty elsewhere; the back grid is empty; the windows are
    /// refitted from the outermost in; both cursors are cut down to the
    /// active window; and the next render is a full redraw.
    pub open spec fn resize(self, width: u16, height: u16) -> ScreenView {
        let base = WindowBounds {
            x: 0,
            y: 0,
            width: side(width) as u16,
            height: side(height) as u16,
        };
        let windows = refit_all(self.windows, base);
        let active = if windows.len() == 0 {
            base
        } else {
            windows.last()
        };
        ScreenView {
            front: if width == 0 || height == 0 {
                GridView::filled(side(width), side(height), Cell::empty())
            } else {
                self.front.resized(side(width), side(height), Cell::empty())
            },
            back: GridView::filled(side(width), side(height), Cell::empty()),
            windows,
            cursor: active.clamp(self.cursor),
            stored_cursor: active.clamp(self.stored_cursor),
            force_redraw: true,
            ..self
        }
    }

    /// The commands that write every cell of the front grid.
    pub open spec fn print_whole_screen(self) -> Seq<CommandView> {
        content_commands(self.front.cells, all_cells(self.front.cells.len()), self.front.width)
    }

    /// The commands that write what the terminal does not show yet: every
    /// cell in a full redraw, else the cells in which the grids differ.
    pub open spec fn content(self) -> Seq<CommandView> {
        if self.force_redraw {
            self.print_whole_screen()
        } else {
            content_commands(
                self.front.cells,
                changed_cells(self.front.cells, self.back.cells),
                self.front.width,
            )
        }
    }

    /// The command that gives the cursor the wanted shape, if the terminal
    /// was last told another.
    pub open spec fn style_commands(self) -> Seq<CommandView> {
        if self.cursor_style != self.shown_cursor_style {
            seq![CommandView::SetCursorStyle { style: self.cursor_style }]
        } else {
            Seq::empty()
        }
    }

    /// The command that shows or hides the cursor as wanted, if the
    /// terminal was last told otherwise.
    pub open spec fn visibility_commands(self) -> Seq<CommandView> {
        if self.cursor_visible == self.shown_cursor_visible {
            Seq::empty()
        } else if self.cursor_visible {
            seq![CommandView::ShowCursor]
        } else {
            seq![CommandView::HideCursor]
        }
    }

    /// The commands that end a render: the move of the terminal's cursor to
    /// the cell under the screen's cursor, and the flush.
    pub open spec fn closing_commands(self) -> Seq<CommandView> {
        seq![
            CommandView::MoveTo {
                x: (self.active().x + self.cursor.x) as u16,
                y: (self.active().y + self.cursor.y) as u16,
            },
            CommandView::Flush,
        ]
    }

    /// The commands of a render, in the order in which the terminal is to
    /// get them.
    pub open spec fn show(self) -> Seq<CommandView> {
        self.content() + self.style_commands() + self.visibility_commands()
            + self.closing_commands()
    }

    /// The screen after the terminal has taken one command of a render. A
    /// cursor command makes its shape or visibility the one shown. The
    /// flush ends the render: the back grid becomes the front grid and the
    /// next render is no full redraw. Other commands leave the screen as
    /// it is.
    pub open spec fn acknowledge(self, command: CommandView) -> ScreenView {
        match command {
            CommandView::SetCursorStyle { style } => ScreenView {
                shown_cursor_style: style,
                ..self
            },
            CommandView::ShowCursor => ScreenView { shown_cursor_visible: true, ..self },
            CommandView::HideCursor => ScreenView { shown_cursor_visible: false, ..self },
            CommandView::Flush => ScreenView { back: self.front, force_redraw: false, ..self },
            _ => self,
        }
    }

    /// The screen after the terminal has taken the commands one after
    /// another.
    pub open spec fn acknowledge_all(self, commands: Seq<CommandView>) -> ScreenView
        decreases commands.len(),
    {
        if commands.len() == 0 {
            self
        } else {
            self.acknowledge_all(commands.drop_last()).acknowledge(commands.last())
        }
    }
}

/// A change that keeps the windows and the size of the grid keeps every
/// window in the window around it.
pub proof fn lemma_windows_kept(before: ScreenView, after: ScreenView)
    requires
        before.wf(),
        after.windows == before.windows,
        after.front.width == before.front.width,
        after.front.height == before.front.height,
    ensures
        after.base() == before.base(),
        after.active() == before.active(),
        forall|i: int| 0 <= i < after.windows.len() ==> #[trigger] after.window_fits(i),
{
    assert forall|i: int| 0 <= i < after.windows.len() implies #[trigger] after.window_fits(i) by {
        assert(before.window_fits(i));
    }
}

} // verus!
