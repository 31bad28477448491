//! What holds of a screen whatever is done with it.

use vstd::prelude::*;
use vstd::math::min;
use vstd::arithmetic::div_mod::{
    lemma_add_mod_noop_right,
    lemma_mod_decreases,
    lemma_mod_equivalence,
    lemma_mod_pos_bound,
    lemma_mod_self_0,
    lemma_small_mod,
    lemma_sub_mod_noop,
};
use crate::cell::Cell;
use crate::color::Color;
use crate::command::CommandView;
use crate::grid::{
    lemma_area_bound,
    lemma_index_in_bounds,
    lemma_position_of_index,
    lemma_resized_cells,
    lemma_with_rect_cells,
};
use crate::model::{
    lemma_refit_all_keeps_nested,
    lemma_refit_all_nested,
    lemma_windows_kept,
    nested_at,
    side,
    ScreenView,
};
use crate::render::{
    all_cells,
    changed_cells,
    commands_before,
    lemma_clean_cells_get_no_command,
    lemma_content_command_kinds,
};
use crate::util::{Point, WindowBounds};
use crate::ClearType;

verus! {

/// After a resize the front grid has the size asked for, or one column or
/// row where none is asked for. Each position that both the old grid and
/// the size asked for have holds the cell it held, and every other position
/// holds the empty cell.
pub proof fn lemma_resize_keeps_shared_cells(
    screen: ScreenView,
    width: u16,
    height: u16,
    x: int,
    y: int,
)
    requires
        screen.wf(),
        0 <= x < side(width),
        0 <= y < side(height),
    ensures
        screen.resize(width, height).wf(),
        screen.resize(width, height).front.width == side(width),
        screen.resize(width, height).front.height == side(height),
        screen.resize(width, height).front.at(x, y) == if x < min(
            screen.front.width as int,
            width as int,
        ) && y < min(screen.front.height as int, height as int) {
            screen.front.at(x, y)
        } else {
            Cell::empty()
        },
{
    let resized = screen.resize(width, height);
    lemma_resized_cells(screen.front, side(width), side(height), Cell::empty(), x, y);
    lemma_index_in_bounds(side(width), side(height), x, y);
    lemma_area_bound(side(width), side(height));
    lemma_refit_all_nested(screen.windows, resized.base());
    assert forall|i: int| 0 <= i < resized.windows.len() implies #[trigger] resized.window_fits(
        i,
    ) by {
        assert(nested_at(resized.windows, resized.base(), i));
    }
    if resized.windows.len() > 0 {
        assert(resized.window_fits(resized.windows.len() - 1));
    }
}

/// A resize that takes no column and no row away leaves the windows and
/// both cursors as they are.
pub proof fn lemma_resize_keeps_windows_that_fit(screen: ScreenView, width: u16, height: u16)
    requires
        screen.wf(),
        width >= screen.front.width,
        height >= screen.front.height,
    ensures
        screen.resize(width, height).windows == screen.windows,
        screen.resize(width, height).cursor == screen.cursor,
        screen.resize(width, height).stored_cursor == screen.stored_cursor,
{
    let base = screen.resize(width, height).base();
    assert forall|i: int| 0 <= i < screen.windows.len() implies #[trigger] nested_at(
        screen.windows,
        base,
        i,
    ) by {
        assert(screen.window_fits(i));
    }
    lemma_refit_all_keeps_nested(screen.windows, base);
    lemma_active_in_grid(screen);
}

/// Commands acknowledged one list after another leave the screen as the
/// two lists acknowledged as one.
pub proof fn lemma_acknowledge_all_concat(
    screen: ScreenView,
    first: Seq<CommandView>,
    second: Seq<CommandView>,
)
    ensures
        screen.acknowledge_all(first + second) == screen.acknowledge_all(first).acknowledge_all(
            second,
        ),
    decreases second.len(),
{
    if second.len() == 0 {
        assert(first + second =~= first);
    } else {
        lemma_acknowledge_all_concat(screen, first, second.drop_last());
        assert((first + second).drop_last() =~= first + second.drop_last());
    }
}

/// Color commands, cursor moves and writes leave the screen as it is when
/// they are acknowledged.
proof fn lemma_acknowledge_content(screen: ScreenView, commands: Seq<CommandView>)
    requires
        forall|k: int|
            0 <= k < commands.len() ==> (#[trigger] commands[k]) is SetColors || commands[k]
                is MoveTo || commands[k] is Print,
    ensures
        screen.acknowledge_all(commands) == screen,
    decreases commands.len(),
{
    if commands.len() > 0 {
        let front = commands.drop_last();
        assert forall|k: int| 0 <= k < front.len() implies (#[trigger] front[k]) is SetColors
            || front[k] is MoveTo || front[k] is Print by {
            assert(front[k] == commands[k]);
        }
        lemma_acknowledge_content(screen, front);
        let last = commands[commands.len() - 1];
        assert(last is SetColors || last is MoveTo || last is Print);
    }
}

/// A render whose commands the terminal has all taken leaves the back grid
/// equal to the front grid, the shape and visibility of the cursor shown
/// as wanted, and no full redraw pending; everything else is as before.
pub proof fn lemma_render_acknowledged(screen: ScreenView)
    requires
        screen.wf(),
    ensures
        screen.acknowledge_all(screen.show()) == (ScreenView {
            back: screen.front,
            shown_cursor_style: screen.cursor_style,
            shown_cursor_visible: screen.cursor_visible,
            force_redraw: false,
            ..screen
        }),
        screen.acknowledge_all(screen.show()).wf(),
{
    let content = screen.content();
    let style = screen.style_commands();
    let visibility = screen.visibility_commands();
    let closing = screen.closing_commands();
    assert forall|k: int| 0 <= k < content.len() implies (#[trigger] content[k]) is SetColors
        || content[k] is MoveTo || content[k] is Print by {
        if k > 0 {
            let dirty = if screen.force_redraw {
                all_cells(screen.front.cells.len())
            } else {
                changed_cells(screen.front.cells, screen.back.cells)
            };
            lemma_content_command_kinds(
                screen.front.cells,
                dirty,
                screen.front.width,
                screen.front.cells.len() as int,
                k - 1,
            );
        }
    }
    lemma_acknowledge_content(screen, content);
    lemma_acknowledge_all_concat(screen, content + style + visibility, closing);
    lemma_acknowledge_all_concat(screen, content + style, visibility);
    lemma_acknowledge_all_concat(screen, content, style);
    let after_style = screen.acknowledge_all(style);
    assert(after_style == ScreenView { shown_cursor_style: screen.cursor_style, ..screen }) by {
        if style.len() > 0 {
            assert(style.drop_last() =~= Seq::<CommandView>::empty());
            assert(screen.acknowledge_all(style.drop_last()) == screen);
        }
    }
    let after_visibility = after_style.acknowledge_all(visibility);
    assert(after_visibility == ScreenView {
        shown_cursor_visible: screen.cursor_visible,
        ..after_style
    }) by {
        if visibility.len() > 0 {
            assert(visibility.drop_last() =~= Seq::<CommandView>::empty());
            assert(after_style.acknowledge_all(visibility.drop_last()) == after_style);
        }
    }
    let moved = closing.drop_last();
    assert(moved.drop_last() =~= Seq::<CommandView>::empty());
    assert(after_visibility.acknowledge_all(moved.drop_last()) == after_visibility);
    assert(after_visibility.acknowledge_all(moved) == after_visibility);
    let done = after_visibility.acknowledge_all(closing);
    assert(done == ScreenView { back: screen.front, force_redraw: false, ..after_visibility });
    lemma_windows_kept(screen, done);
}

/// A second render right after a render that the terminal took writes no
/// cell: its commands are the reset of the colors, the move of the cursor
/// and the flush.
pub proof fn lemma_second_render_writes_nothing(screen: ScreenView)
    requires
        screen.wf(),
    ensures
        ({
            let rendered = screen.acknowledge_all(screen.show());
            &&& rendered.show() == seq![
                CommandView::SetColors { fg: Color::Reset, bg: Color::Reset },
            ] + rendered.closing_commands()
            &&& forall|k: int| 0 <= k < rendered.show().len() ==> !(rendered.show()[k] is Print)
        }),
{
    lemma_render_acknowledged(screen);
    let rendered = screen.acknowledge_all(screen.show());
    let cells = rendered.front.cells;
    let dirty = changed_cells(cells, rendered.back.cells);
    lemma_clean_cells_get_no_command(cells, dirty, rendered.front.width, cells.len() as int);
    assert(commands_before(cells, dirty, rendered.front.width, cells.len() as int)
        =~= Seq::<CommandView>::empty());
    assert(rendered.show() =~= seq![
        CommandView::SetColors { fg: Color::Reset, bg: Color::Reset },
    ] + rendered.closing_commands());
}

/// The active window lies in the grid.
pub proof fn lemma_active_in_grid(screen: ScreenView)
    requires
        screen.wf(),
    ensures
        screen.active().fits_in(screen.base()),
        screen.active().valid(),
{
    if screen.windows.len() > 0 {
        assert(screen.window_fits(screen.windows.len() - 1));
    }
}

/// A clear empties cells of the active window only: the rectangle that it
/// covers lies in the active window, each cell in it becomes the empty
/// cell, and every other cell is as before.
pub proof fn lemma_clear_stays_in_window(screen: ScreenView, ty: ClearType, x: int, y: int)
    requires
        screen.wf(),
        screen.front.contains(x, y),
    ensures
        screen.clear_rect(ty).fits_in(screen.active()),
        screen.clear(ty).front.at(x, y) == if screen.clear_rect(ty).contains(x, y) {
            Cell::empty()
        } else {
            screen.front.at(x, y)
        },
{
    lemma_active_in_grid(screen);
    lemma_with_rect_cells(screen.front, screen.clear_rect(ty), Cell::empty(), x, y);
}

/// A printed character changes the front grid at most under the cursor,
/// and leaves the cursor in the active window.
pub proof fn lemma_print_char_stays_in_window(screen: ScreenView, c: char, x: int, y: int)
    requires
        screen.wf(),
        screen.front.contains(x, y),
    ensures
        screen.print_char(c).wf(),
        screen.print_char(c) == (ScreenView {
            front: screen.print_char(c).front,
            cursor: screen.print_char(c).cursor,
            ..screen
        }),
        screen.print_char(c).front.width == screen.front.width,
        screen.print_char(c).front.height == screen.front.height,
        (x != screen.active().x + screen.cursor.x || y != screen.active().y + screen.cursor.y)
            ==> screen.print_char(c).front.at(x, y) == screen.front.at(x, y),
        c != '\n' ==> screen.print_char(c).front.at(
            screen.active().x + screen.cursor.x,
            screen.active().y + screen.cursor.y,
        ) == (Cell { fg_color: screen.fg_color, bg_color: screen.bg_color, c }),
{
    lemma_active_in_grid(screen);
    let after = screen.print_char(c);
    let window = screen.active();
    lemma_windows_kept(screen, after);
    lemma_index_in_bounds(screen.front.width, screen.front.height, x, y);
    lemma_index_in_bounds(
        screen.front.width,
        screen.front.height,
        window.x + screen.cursor.x,
        window.y + screen.cursor.y,
    );
}

/// Printing never leaves the active window: whatever the text, the cursor
/// ends in the active window, every cell outside it is as before, and so
/// is everything of the screen but the front grid and the cursor.
pub proof fn lemma_print_stays_in_window(screen: ScreenView, text: Seq<char>)
    requires
        screen.wf(),
    ensures
        screen.print(text).wf(),
        screen.print(text) == (ScreenView {
            front: screen.print(text).front,
            cursor: screen.print(text).cursor,
            ..screen
        }),
        screen.print(text).front.width == screen.front.width,
        screen.print(text).front.height == screen.front.height,
        screen.print(text).active() == screen.active(),
        screen.active().holds(screen.print(text).cursor),
        forall|x: int, y: int|
            screen.front.contains(x, y) && !screen.active().contains(x, y)
                ==> #[trigger] screen.print(text).front.at(x, y) == screen.front.at(x, y),
    decreases text.len(),
{
    if text.len() > 0 {
        let before = screen.print(text.drop_last());
        let after = before.print_char(text.last());
        lemma_print_stays_in_window(screen, text.drop_last());
        lemma_print_char_stays_in_window(before, text.last(), 0, 0);
        assert forall|x: int, y: int|
            screen.front.contains(x, y) && !screen.active().contains(
                x,
                y,
            ) implies #[trigger] after.front.at(x, y) == screen.front.at(x, y) by {
            lemma_print_char_stays_in_window(before, text.last(), x, y);
            assert(before.front.at(x, y) == screen.front.at(x, y));
        }
    }
}

/// A cursor that advances in a window goes to the next place among its
/// cells, counted row by row, and from the last place to the first.
pub proof fn lemma_advance_wraps(window: WindowBounds, cursor: Point)
    requires
        window.holds(cursor),
    ensures
        window.holds(window.advance(cursor)),
        0 <= window.offset_of(cursor) < window.area(),
        window.offset_of(window.advance(cursor)) == (window.offset_of(cursor) + 1) % window.area(),
        window.point_at(window.offset_of(cursor)) == cursor,
{
    let w = window.width as nat;
    let h = window.height as nat;
    let x = cursor.x as int;
    let y = cursor.y as int;
    lemma_index_in_bounds(w, h, x, y);
    if x + 1 < w {
        lemma_index_in_bounds(w, h, x + 1, y);
        lemma_small_mod((y * w + x + 1) as nat, w * h);
    } else {
        assert((y + 1) * w == y * w + w) by (nonlinear_arith);
        if y + 1 < h {
            lemma_index_in_bounds(w, h, 0, y + 1);
            lemma_small_mod((y * w + x + 1) as nat, w * h);
        } else {
            assert(h * w == w * h) by (nonlinear_arith);
            lemma_mod_self_0((w * h) as int);
        }
    }
}

/// Two places among the cells of a window that are less than its area
/// apart are different places after wrapping.
proof fn lemma_wrapped_places_differ(start: int, i: int, j: int, area: int)
    requires
        0 < area,
        0 <= i < j < i + area,
    ensures
        (start + i) % area != (start + j) % area,
{
    lemma_mod_equivalence(start + j, start + i, area);
    lemma_small_mod((j - i) as nat, area as nat);
}

/// Printed text wraps within the active window. Where the text holds no
/// newline, counting the cells of the window row by row from the cell
/// under the cursor and going on from its last cell to its first, the
/// character at place `j` of the text is written to the cell at place `j`.
/// So the cursor ends as many places on as the text is long; each of the
/// last characters, as many as the window has cells, is the character of
/// its cell, in the current colors; and a cell whose place the text does
/// not reach is as before.
pub proof fn lemma_print_wraps(screen: ScreenView, text: Seq<char>)
    requires
        screen.wf(),
        forall|j: int| 0 <= j < text.len() ==> text[j] != '\n',
    ensures
        ({
            let window = screen.active();
            let start = window.offset_of(screen.cursor);
            let printed = screen.print(text);
            &&& printed.cursor == window.point_at((start + text.len()) % window.area())
            &&& forall|j: int|
                #![trigger text[j]]
                0 <= j < text.len() && text.len() - window.area() <= j ==> {
                    let place = window.point_at((start + j) % window.area());
                    &&& window.holds(place)
                    &&& printed.front.at(window.x + place.x, window.y + place.y) == (Cell {
                        fg_color: screen.fg_color,
                        bg_color: screen.bg_color,
                        c: text[j],
                    })
                }
            &&& forall|place: int|
                #![trigger window.point_at(place)]
                0 <= place < window.area() && (place - start) % window.area() >= text.len() ==> {
                    let at = window.point_at(place);
                    printed.front.at(window.x + at.x, window.y + at.y) == screen.front.at(
                        window.x + at.x,
                        window.y + at.y,
                    )
                }
        }),
    decreases text.len(),
{
    let window = screen.active();
    let area = window.area();
    let start = window.offset_of(screen.cursor);
    let w = window.width as nat;
    let h = window.height as nat;
    lemma_active_in_grid(screen);
    lemma_advance_wraps(window, screen.cursor);
    assert(area > 0) by (nonlinear_arith)
        requires
            area == w * h,
            w >= 1,
            h >= 1,
    ;
    if text.len() == 0 {
        lemma_small_mod(start as nat, area as nat);
    } else {
        let n = text.len() as int;
        let front = text.drop_last();
        let before = screen.print(front);
        let printed = before.print_char(text.last());
        lemma_print_wraps(screen, front);
        lemma_print_stays_in_window(screen, front);
        lemma_advance_wraps(window, before.cursor);
        let last_place = (start + n - 1) % area;
        lemma_mod_pos_bound(start + n - 1, area);
        lemma_position_of_index(w, h, last_place);
        lemma_index_in_bounds(w, h, last_place % (w as int), last_place / (w as int));
        assert(window.offset_of(before.cursor) == last_place);
        assert(printed.cursor == window.point_at((start + n) % area)) by {
            lemma_add_mod_noop_right(1, start + n - 1, area);
            lemma_mod_pos_bound(start + n, area);
            lemma_position_of_index(w, h, (start + n) % area);
            lemma_index_in_bounds(
                w,
                h,
                printed.cursor.x as int,
                printed.cursor.y as int,
            );
        }
        assert forall|j: int| #![trigger text[j]] 0 <= j < n && n - area <= j implies {
            let place = window.point_at((start + j) % area);
            &&& window.holds(place)
            &&& printed.front.at(window.x + place.x, window.y + place.y) == (Cell {
                fg_color: screen.fg_color,
                bg_color: screen.bg_color,
                c: text[j],
            })
        } by {
            let offset = (start + j) % area;
            let place = window.point_at(offset);
            lemma_mod_pos_bound(start + j, area);
            lemma_position_of_index(w, h, offset);
            lemma_print_char_stays_in_window(
                before,
                text.last(),
                window.x + place.x,
                window.y + place.y,
            );
            if j < n - 1 {
                lemma_wrapped_places_differ(start, j, n - 1, area);
                assert(front[j] == text[j]);
                assert(place != before.cursor);
            } else {
                assert(place == before.cursor);
            }
        }
        assert forall|place: int|
            #![trigger window.point_at(place)]
            0 <= place < area && (place - start) % area >= n implies {
            let at = window.point_at(place);
            printed.front.at(window.x + at.x, window.y + at.y) == screen.front.at(
                window.x + at.x,
                window.y + at.y,
            )
        } by {
            let at = window.point_at(place);
            lemma_position_of_index(w, h, place);
            lemma_print_char_stays_in_window(
                before,
                text.last(),
                window.x + at.x,
                window.y + at.y,
            );
            if place == last_place {
                lemma_small_mod(start as nat, area as nat);
                lemma_sub_mod_noop(start + n - 1, start, area);
                lemma_mod_decreases((n - 1) as nat, area as nat);
            }
        }
    }
}

} // verus!
