//! The commands that a screen asks of a terminal.

use vstd::prelude::*;
use crate::color::Color;
use crate::cursor::CursorStyle;

verus! {

/// What a command asks of the terminal, with the text of a write as a
/// sequence of characters.
pub enum CommandView {
    /// Move the cursor to column `x`, row `y` of the terminal.
    MoveTo { x: u16, y: u16 },
    /// Write from now on in these colors.
    SetColors { fg: Color, bg: Color },
    /// Write `text` at the cursor.
    Print { text: Seq<char> },
    /// Give the cursor this shape.
    SetCursorStyle { style: CursorStyle },
    /// Make the cursor visible.
    ShowCursor,
    /// Make the cursor invisible.
    HideCursor,
    /// Send everything written so far to the terminal.
    Flush,
}

/// One command for the terminal.
#[derive(Debug, Clone, PartialEq, Eq)]
pub enum Command {
    /// Move the cursor to the given column and row of the terminal.
    MoveTo(u16, u16),
    /// Write from now on in this foreground and background color.
    SetColors(Color, Color),
    /// Write the text at the cursor.
    Print(String),
    /// Give the cursor this shape.
    SetCursorStyle(CursorStyle),
    /// Make the cursor visible.
    ShowCursor,
    /// Make the cursor invisible.
    HideCursor,
    /// Send everything written so far to the terminal.
    Flush,
}

impl View for Command {
    type V = CommandView;

    open spec fn view(&self) -> CommandView {
        match *self {
            Command::MoveTo(x, y) => CommandView::MoveTo { x, y },
            Command::SetColors(fg, bg) => CommandView::SetColors { fg, bg },
            Command::Print(text) => CommandView::Print { text: text@ },
            Command::SetCursorStyle(style) => CommandView::SetCursorStyle { style },
            Command::ShowCursor => CommandView::ShowCursor,
            Command::HideCursor => CommandView::HideCursor,
            Command::Flush => CommandView::Flush,
        }
    }
}

impl DeepView for Command {
    type V = CommandView;

    open spec fn deep_view(&self) -> CommandView {
        self@
    }
}

/// Taken on trust, not proved here: `String::push` of the standard library
/// appends `ch` to the string, so the string afterwards holds the
/// characters that it held, in their order, and then `ch`.
pub assume_specification[ String::push ](s: &mut String, ch: char)
    ensures
        final(s)@ == old(s)@.push(ch),
;

} // verus!
