//! A double-buffered character screen: an in-memory grid of styled cells,
//! nested clipping windows, and the computation of the terminal commands
//! that bring a terminal in line with the grid.
//!
//! A [`Screen`] holds two grids. The application writes to the front grid
//! through the cursor, the colors and the active window; the back grid is
//! what the terminal shows. [`Screen::show`] gives the commands of a render,
//! which write only the cells in which the two grids differ. The library
//! does no input or output: the caller sends each command to the terminal
//! and tells the screen with [`Screen::acknowledge`] that the terminal has
//! taken it. The flush is the last command of a render; once it is
//! acknowledged the back grid equals the front grid.
//!
//! Every operation is specified as a function on [`model::ScreenView`], the
//! screen as a mathematical value, and [`laws`] states what follows for all
//! screens.

use vstd::prelude::*;

pub mod cell;
pub mod color;
pub mod command;
pub mod cursor;
pub mod grid;
pub mod laws;
pub mod model;
pub mod render;
pub mod util;

pub use cell::Cell;
pub use color::Color;
pub use command::Command;
pub use cursor::CursorStyle;
pub use util::{Point, WindowBounds};

use grid::{lemma_with_rect_of_whole_grid, Grid};
use model::{
    lemma_refit_all_nested,
    lemma_windows_kept,
    nested_at,
    outer_of,
    refit_all,
    ScreenView,
};

verus! {

/// What a clear empties.
#[derive(Debug, Clone, Copy, PartialEq, Eq, Structural)]
pub enum ClearType {
    /// The whole active window.
    All,
    /// The cursor's row, over the width of the active window.
    CurrentLine,
    /// The cursor's row from the cursor to the right edge of the active
    /// window.
    UntilNewline,
    /// The cell under the cursor.
    Current,
}

/// The windows refitted from the outermost in: the first into `base`, each
/// other into the one before it as refitted.
fn refit_windows(windows: &Vec<WindowBounds>, base: WindowBounds) -> (refitted: Vec<WindowBounds>)
    requires
        base.valid(),
    ensures
        refitted@ == refit_all(windows@, base),
{
    let mut refitted: Vec<WindowBounds> = Vec::new();
    let mut outer = base;
    let mut i: usize = 0;
    while i < windows.len()
        invariant
            i <= windows.len(),
            refitted@ == refit_all(windows@.take(i as int), base),
            outer == outer_of(refitted@, base, refitted@.len() as int),
            outer.valid(),
        decreases windows.len() - i,
    {
        let window = windows[i].refit(outer);
        assert(windows@.take(i + 1).drop_last() == windows@.take(i as int));
        refitted.push(window);
        outer = window;
        i += 1;
    }
    assert(windows@.take(i as int) == windows@);
    refitted
}

/// A screen of styled characters with a cursor, colors and nested windows,
/// which knows what the terminal shows and so what a render has to send.
#[derive(Debug, Clone)]
pub struct Screen {
    new_screen: Grid,
    cur_screen: Grid,
    cursor: Point,
    stored_cursor: Point,
    force_redraw: bool,
    fg_color: Color,
    bg_color: Color,
    new_cursor_style: CursorStyle,
    cur_cursor_style: CursorStyle,
    new_cursor_visibility: bool,
    cur_cursor_visibility: bool,
    windows: Vec<WindowBounds>,
}

impl View for Screen {
    type V = ScreenView;

    closed spec fn view(&self) -> ScreenView {
        ScreenView {
            front: self.new_screen@,
            back: self.cur_screen@,
            windows: self.windows@,
            cursor: self.cursor,
            stored_cursor: self.stored_cursor,
            fg_color: self.fg_color,
            bg_color: self.bg_color,
            cursor_style: self.new_cursor_style,
            shown_cursor_style: self.cur_cursor_style,
            cursor_visible: self.new_cursor_visibility,
            shown_cursor_visible: self.cur_cursor_visibility,
            force_redraw: self.force_redraw,
        }
    }
}

impl Screen {
    /// The character of an empty cell.
    pub const EMPTY_CHAR: char = ' ';

    /// A screen of `width` columns and `height` rows, or of one where 0 is
    /// asked for.
    pub fn new(width: u16, height: u16) -> (screen: Screen)
        ensures
            screen@ == ScreenView::new(width, height),
            screen@.wf(),
    {
        let width: u16 = if width < 1 {
            1
        } else {
            width
        };
        let height: u16 = if height < 1 {
            1
        } else {
            height
        };
        Screen {
            new_screen: Grid::new(width, height, Cell::empty()),
            cur_screen: Grid::new(width, height, Cell::empty()),
            cursor: Point::zero(),
            stored_cursor: Point::zero(),
            force_redraw: false,
            fg_color: Color::Reset,
            bg_color: Color::Reset,
            new_cursor_style: CursorStyle::DefaultUserShape,
            cur_cursor_style: CursorStyle::DefaultUserShape,
            new_cursor_visibility: true,
            cur_cursor_visibility: true,
            windows: Vec::new(),
        }
    }

    /// The active window, in columns and rows of the grid.
    fn get_current_window(&self) -> (window: WindowBounds)
        requires
            self@.wf(),
        ensures
            window == self@.active(),
            window.fits_in(self@.base()),
            window.valid(),
    {
        let n = self.windows.len();
        if n > 0 {
            assert(self@.window_fits(n - 1));
            self.windows[n - 1]
        } else {
            WindowBounds::new(0, 0, self.new_screen.width(), self.new_screen.height())
        }
    }

    /// The width of the active window.
    pub fn get_width(&self) -> (width: u16)
        requires
            self@.wf(),
        ensures
            width == self@.active().width,
    {
        self.get_current_window().width
    }

    /// The height of the active window.
    pub fn get_height(&self) -> (height: u16)
        requires
            self@.wf(),
        ensures
            height == self@.active().height,
    {
        self.get_current_window().height
    }

    /// The width and height of the active window.
    pub fn get_size(&self) -> (size: (u16, u16))
        requires
            self@.wf(),
        ensures
            size == (self@.active().width, self@.active().height),
    {
        let window = self.get_current_window();
        (window.width, window.height)
    }

    /// Opens a window in the active one. Its corner is asked for at
    /// column `x` and row `y` of the active window, with the given size;
    /// what is asked for is cut down to fit, so the window never reaches
    /// beyond the active one and always has a cell. Both cursors go to its
    /// corner.
    pub fn begin_window(&mut self, x: u16, y: u16, width: u16, height: u16)
        requires
            old(self)@.wf(),
        ensures
            final(self)@ == old(self)@.begin_window(x, y, width, height),
            final(self)@.wf(),
            final(self)@.active().fits_in(old(self)@.active()),
    {
        let outer = self.get_current_window();
        let inner = outer.clip(x, y, width, height);
        self.cursor = Point::zero();
        self.stored_cursor = Point::zero();
        self.windows.push(inner);
        assert forall|i: int| 0 <= i < self@.windows.len() implies #[trigger] self@.window_fits(
            i,
        ) by {
            if i < old(self)@.windows.len() {
                assert(old(self)@.window_fits(i));
            }
        }
    }

    /// Closes the active window. Both cursors stay on the cells they were
    /// on, now as offsets in the window around it. With no window open
    /// nothing changes.
    pub fn end_window(&mut self)
        requires
            old(self)@.wf(),
        ensures
            final(self)@ == old(self)@.end_window(),
            final(self)@.wf(),
    {
        let n = self.windows.len();
        if n > 0 {
            let inner = self.windows[n - 1];
            let outer = if n > 1 {
                self.windows[n - 2]
            } else {
                WindowBounds::new(0, 0, self.new_screen.width(), self.new_screen.height())
            };
            assert(old(self)@.window_fits(n - 1));
            self.windows.pop();
            self.cursor = Point::new(
                inner.x - outer.x + self.cursor.x,
                inner.y - outer.y + self.cursor.y,
            );
            self.stored_cursor = Point::new(
                inner.x - outer.x + self.stored_cursor.x,
                inner.y - outer.y + self.stored_cursor.y,
            );
            assert(self@.windows =~= old(self)@.windows.drop_last());
            assert forall|i: int| 0 <= i < self@.windows.len() implies #[trigger] self@.window_fits(
                i,
            ) by {
                assert(old(self)@.window_fits(i));
            }
        }
    }

    /// The column and row of the cursor in the active window.
    pub fn get_cursor(&self) -> (position: (u16, u16))
        ensures
            position == (self@.cursor.x, self@.cursor.y),
    {
        (self.cursor.x, self.cursor.y)
    }

    /// The shape that the application wants the cursor to have.
    pub fn get_cursor_style(&self) -> (style: CursorStyle)
        ensures
            style == self@.cursor_style,
    {
        self.new_cursor_style
    }

    /// Sets the shape of the cursor. The terminal is told at the next
    /// render.
    pub fn set_cursor_style(&mut self, style: CursorStyle)
        requires
            old(self)@.wf(),
        ensures
            final(self)@ == old(self)@.set_cursor_style(style),
            final(self)@.wf(),
    {
        self.new_cursor_style = style;
        proof {
            lemma_windows_kept(old(self)@, self@);
        }
    }

    /// Whether the application wants the cursor visible.
    pub fn get_cursor_visibility(&self) -> (visible: bool)
        ensures
            visible == self@.cursor_visible,
    {
        self.new_cursor_visibility
    }

    /// Makes the cursor visible or invisible. The terminal is told at the
    /// next render.
    pub fn set_cursor_visibility(&mut self, visibility: bool)
        requires
            old(self)@.wf(),
        ensures
            final(self)@ == old(self)@.set_cursor_visibility(visibility),
            final(self)@.wf(),
    {
        self.new_cursor_visibility = visibility;
        proof {
            lemma_windows_kept(old(self)@, self@);
        }
    }

    /// Makes the cursor visible.
    pub fn show_cursor(&mut self)
        requires
            old(self)@.wf(),
        ensures
            final(self)@ == old(self)@.set_cursor_visibility(true),
            final(self)@.wf(),
    {
        self.set_cursor_visibility(true);
    }

    /// Makes the cursor invisible.
    pub fn hide_cursor(&mut self)
        requires
            old(self)@.wf(),
        ensures
            final(self)@ == old(self)@.set_cursor_visibility(false),
            final(self)@.wf(),
    {
        self.set_cursor_visibility(false);
    }

    /// Stores the position of the cursor.
    pub fn save_cursor(&mut self)
        requires
            old(self)@.wf(),
        ensures
            final(self)@ == old(self)@.save_cursor(),
            final(self)@.wf(),
    {
        self.stored_cursor = self.cursor;
        proof {
            lemma_windows_kept(old(self)@, self@);
        }
    }

    /// Moves the cursor to the stored position, cut down to the active
    /// window.
    pub fn restore_cursor(&mut self)
        requires
            old(self)@.wf(),
        ensures
            final(self)@ == old(self)@.restore_cursor(),
            final(self)@.wf(),
            final(self)@.cursor == old(self)@.stored_cursor,
    {
        let window = self.get_current_window();
        self.cursor = window.clamp(self.stored_cursor);
        proof {
            lemma_windows_kept(old(self)@, self@);
        }
    }

    /// Empties cells of the active window: all of it, the cursor's row,
    /// the cursor's row from the cursor on, or the cell under the cursor.
    /// No cell outside the active window changes.
    pub fn clear(&mut self, ty: ClearType)
        requires
            old(self)@.wf(),
        ensures
            final(self)@ == old(self)@.clear(ty),
            final(self)@.wf(),
    {
        let window = self.get_current_window();
        let rect = match ty {
            ClearType::All => window,
            ClearType::CurrentLine => WindowBounds::new(
                window.x,
                window.y + self.cursor.y,
                window.width,
                1,
            ),
            ClearType::UntilNewline => WindowBounds::new(
                window.x + self.cursor.x,
                window.y + self.cursor.y,
                window.width - self.cursor.x,
                1,
            ),
            ClearType::Current => WindowBounds::new(
                window.x + self.cursor.x,
                window.y + self.cursor.y,
                1,
                1,
            ),
        };
        if self.windows.len() == 0 && matches!(ty, ClearType::All) {
            proof {
                lemma_with_rect_of_whole_grid(self.new_screen@, rect, Cell::empty());
            }
            self.new_screen.fill(Cell::empty());
        } else {
            self.new_screen.fill_rect(rect, Cell::empty());
        }
        proof {
            lemma_windows_kept(old(self)@, self@);
        }
    }

    /// Sets both colors to the reset color.
    pub fn clear_colors(&mut self)
        requires
            old(self)@.wf(),
        ensures
            final(self)@ == old(self)@.set_colors(Color::Reset, Color::Reset),
            final(self)@.wf(),
    {
        self.fg_color = Color::Reset;
        self.bg_color = Color::Reset;
        proof {
            lemma_windows_kept(old(self)@, self@);
        }
    }

    /// Sets the colors of the cells written from now on. Cells written
    /// before keep theirs.
    pub fn set_colors(&mut self, foreground_color: Color, background_color: Color)
        requires
            old(self)@.wf(),
        ensures
            final(self)@ == old(self)@.set_colors(foreground_color, background_color),
            final(self)@.wf(),
    {
        self.fg_color = foreground_color;
        self.bg_color = background_color;
        proof {
            lemma_windows_kept(old(self)@, self@);
        }
    }

    /// Sets the foreground color of the cells written from now on.
    pub fn set_foreground_color(&mut self, foreground_color: Color)
        requires
            old(self)@.wf(),
        ensures
            final(self)@ == old(self)@.set_colors(foreground_color, old(self)@.bg_color),
            final(self)@.wf(),
    {
        self.fg_color = foreground_color;
        proof {
            lemma_windows_kept(old(self)@, self@);
        }
    }

    /// Sets the background color of the cells written from now on.
    pub fn set_background_color(&mut self, background_color: Color)
        requires
            old(self)@.wf(),
        ensures
            final(self)@ == old(self)@.set_colors(old(self)@.fg_color, background_color),
            final(self)@.wf(),
    {
        self.bg_color = background_color;
        proof {
            lemma_windows_kept(old(self)@, self@);
        }
    }

    /// Prints one character: a newline takes the cursor to the left edge
    /// of the next row of the active window, or of its top row after the
    /// last; any other character is written under the cursor in the
    /// current colors, and the cursor moves one column on, or to the next
    /// line after the last column.
    pub fn print_char(&mut self, c: char)
        requires
            old(self)@.wf(),
        ensures
            final(self)@ == old(self)@.print_char(c),
            final(self)@.wf(),
    {
        let window = self.get_current_window();
        if c == '\n' {
            self.cursor = window.next_line(self.cursor);
        } else {
            self.new_screen.set(
                window.x + self.cursor.x,
                window.y + self.cursor.y,
                Cell::new(self.fg_color, self.bg_color, c),
            );
            self.cursor = window.advance(self.cursor);
        }
        proof {
            lemma_windows_kept(old(self)@, self@);
        }
    }

    /// Prints the characters of `message` one after another.
    pub fn print(&mut self, message: &str)
        requires
            old(self)@.wf(),
        ensures
            final(self)@ == old(self)@.print(message@),
            final(self)@.wf(),
    {
        let ghost text = message@;
        for c in it: message.chars()
            invariant
                it.seq() == text,
                self@.wf(),
                self@ == old(self)@.print(text.take(it.index())),
        {
            self.print_char(c);
            assert(text.take(it.index() + 1).drop_last() == text.take(it.index()));
        }
        assert(text.take(text.len() as int) == text);
    }

    /// Moves the cursor, then prints the message.
    pub fn print_at(&mut self, x: u16, y: u16, message: &str)
        requires
            old(self)@.wf(),
        ensures
            final(self)@ == old(self)@.print_at(x, y, message@),
            final(self)@.wf(),
    {
        self.move_to(x, y);
        self.print(message);
    }

    /// Moves the cursor to column `x` and row `y` of the active window, or
    /// to its last column or row where that is past the edge.
    pub fn move_to(&mut self, x: u16, y: u16)
        requires
            old(self)@.wf(),
        ensures
            final(self)@ == old(self)@.move_to(x, y),
            final(self)@.wf(),
    {
        let window = self.get_current_window();
        self.cursor = window.clamp(Point::new(x, y));
        proof {
            lemma_windows_kept(old(self)@, self@);
        }
    }

    /// Gives the screen a new size, of at least one column and one row.
    /// The front grid keeps the cells that the old size and the size asked
    /// for share and is empty elsewhere; the back grid is empty. Open
    /// windows are moved and cut down, from the outermost in, to fit in the
    /// new grid; both cursors are cut down to the active window. The next
    /// render is a full redraw.
    pub fn resize(&mut self, width: u16, height: u16)
        requires
            old(self)@.wf(),
        ensures
            final(self)@ == old(self)@.resize(width, height),
            final(self)@.wf(),
    {
        let keeps_cells = width > 0 && height > 0;
        let width: u16 = if width < 1 {
            1
        } else {
            width
        };
        let height: u16 = if height < 1 {
            1
        } else {
            height
        };
        let base = WindowBounds::new(0, 0, width, height);
        let windows = refit_windows(&self.windows, base);
        let active = if windows.len() == 0 {
            base
        } else {
            windows[windows.len() - 1]
        };
        proof {
            lemma_refit_all_nested(self.windows@, base);
            if windows.len() > 0 {
                assert(nested_at(windows@, base, windows.len() - 1));
            }
        }
        self.new_screen = if keeps_cells {
            self.new_screen.resized(width, height, Cell::empty())
        } else {
            Grid::new(width, height, Cell::empty())
        };
        self.cur_screen = Grid::new(width, height, Cell::empty());
        self.windows = windows;
        self.cursor = active.clamp(self.cursor);
        self.stored_cursor = active.clamp(self.stored_cursor);
        self.force_redraw = true;
        assert forall|k: int| 0 <= k < self@.windows.len() implies #[trigger] self@.window_fits(
            k,
        ) by {
            assert(nested_at(self.windows@, base, k));
        }
    }

    /// Makes the next render a full redraw, as after a render that the
    /// terminal did not take to its end.
    pub fn force_redraw(&mut self)
        requires
            old(self)@.wf(),
        ensures
            final(self)@ == (ScreenView { force_redraw: true, ..old(self)@ }),
            final(self)@.wf(),
    {
        self.force_redraw = true;
        proof {
            lemma_windows_kept(old(self)@, self@);
        }
    }

    /// The commands that write every cell of the screen to the terminal,
    /// whatever the terminal shows.
    pub fn print_whole_screen(&self) -> (commands: Vec<Command>)
        requires
            self@.wf(),
        ensures
            commands.deep_view() == self@.print_whole_screen(),
    {
        render::full_redraw(&self.new_screen)
    }

    /// The commands of a render: those that write what the terminal does
    /// not show yet, those that give the cursor its wanted shape and
    /// visibility, the move of the terminal's cursor to the screen's
    /// cursor, and the flush. The screen itself changes when the commands
    /// are acknowledged.
    pub fn show(&self) -> (commands: Vec<Command>)
        requires
            self@.wf(),
        ensures
            commands.deep_view() == self@.show(),
    {
        let mut commands = if self.force_redraw {
            render::full_redraw(&self.new_screen)
        } else {
            render::changes(&self.new_screen, &self.cur_screen)
        };
        let ghost content = commands.deep_view();
        if self.new_cursor_style != self.cur_cursor_style {
            commands.push(Command::SetCursorStyle(self.new_cursor_style));
        }
        assert(commands.deep_view() =~= content + self@.style_commands());
        if self.new_cursor_visibility != self.cur_cursor_visibility {
            if self.new_cursor_visibility {
                commands.push(Command::ShowCursor);
            } else {
                commands.push(Command::HideCursor);
            }
        }
        assert(commands.deep_view() =~= content + self@.style_commands()
            + self@.visibility_commands());
        let window = self.get_current_window();
        commands.push(Command::MoveTo(window.x + self.cursor.x, window.y + self.cursor.y));
        commands.push(Command::Flush);
        assert(commands.deep_view() =~= self@.show());
        commands
    }

    /// Records that the terminal has taken `command`, one of a render. A
    /// cursor command makes its shape or visibility the one shown; the
    /// flush, the last command of a render, makes the back grid equal to
    /// the front grid and ends a full redraw. A render that fails is
    /// acknowledged up to the command that failed, which leaves the back
    /// grid as it was.
    pub fn acknowledge(&mut self, command: &Command)
        requires
            old(self)@.wf(),
        ensures
            final(self)@ == old(self)@.acknowledge(command@),
            final(self)@.wf(),
    {
        match command {
            Command::SetCursorStyle(style) => {
                self.cur_cursor_style = *style;
            },
            Command::ShowCursor => {
                self.cur_cursor_visibility = true;
            },
            Command::HideCursor => {
                self.cur_cursor_visibility = false;
            },
            Command::Flush => {
                self.cur_screen.copy_from(&self.new_screen);
                self.force_redraw = false;
            },
            _ => {},
        }
        proof {
            lemma_windows_kept(old(self)@, self@);
        }
    }
}

} // verus!
