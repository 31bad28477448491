//! The render engine: which commands bring a terminal in line with a grid.
//!
//! A render scans the cells row by row, as one sequence. Some cells are to
//! be written (all of them in a full redraw; those that differ from what
//! the terminal shows otherwise). The cells to write fall into runs: a run
//! is a longest stretch of neighbouring cells to write that share one pair
//! of colors. Each run costs one cursor move and one write, and a color
//! command where its colors are not those written last.

use vstd::prelude::*;
use crate::cell::Cell;
use crate::color::Color;
use crate::command::{Command, CommandView};
use crate::grid::{lemma_position_of_index, Grid};

verus! {

/// The foreground and background color of a cell.
pub open spec fn colors_of(cell: Cell) -> (Color, Color) {
    (cell.fg_color, cell.bg_color)
}

/// The colors a terminal writes in before it is told any.
pub open spec fn reset_colors() -> (Color, Color) {
    (Color::Reset, Color::Reset)
}

/// Every one of `len` cells is to be written.
pub open spec fn all_cells(len: nat) -> Seq<bool> {
    Seq::new(len, |i: int| true)
}

/// The cells of `front` to be written are those that differ from `back`.
pub open spec fn changed_cells(front: Seq<Cell>, back: Seq<Cell>) -> Seq<bool> {
    Seq::new(front.len(), |i: int| front[i] != back[i])
}

/// Whether a run begins at cell `i`: the cell is to be written, and the one
/// before it is not, or has other colors, or does not exist.
pub open spec fn starts_run(cells: Seq<Cell>, dirty: Seq<bool>, i: int) -> bool {
    dirty[i] && (i == 0 || !dirty[i - 1] || colors_of(cells[i - 1]) != colors_of(cells[i]))
}

/// Whether cell `k` is to be written and has the colors of the cell at
/// `start`.
pub open spec fn continues_run(cells: Seq<Cell>, dirty: Seq<bool>, start: int, k: int) -> bool {
    dirty[k] && colors_of(cells[k]) == colors_of(cells[start])
}

/// Where the run that holds the cells from `start` up to `i` ends: the
/// first cell from `i` on that is not to be written or has other colors
/// than the cell at `start`, or the end of the cells.
pub open spec fn run_end(cells: Seq<Cell>, dirty: Seq<bool>, start: int, i: int) -> int
    decreases cells.len() - i,
{
    if i < cells.len() && continues_run(cells, dirty, start, i) {
        run_end(cells, dirty, start, i + 1)
    } else {
        i
    }
}

/// The colors in which the terminal writes when the scan reaches cell `i`:
/// those of the nearest cell to write before `i`, or the reset colors.
pub open spec fn pen_at(cells: Seq<Cell>, dirty: Seq<bool>, i: int) -> (Color, Color)
    decreases i,
{
    if i <= 0 {
        reset_colors()
    } else if dirty[i - 1] {
        colors_of(cells[i - 1])
    } else {
        pen_at(cells, dirty, i - 1)
    }
}

/// The characters of the cells from `from` up to `to`.
pub open spec fn text_of(cells: Seq<Cell>, from: int, to: int) -> Seq<char> {
    Seq::new((to - from) as nat, |k: int| cells[from + k].c)
}

/// The color command, if any, that takes the terminal from writing in
/// `pen` to writing in `ink`.
pub open spec fn paint(pen: (Color, Color), ink: (Color, Color)) -> Seq<CommandView> {
    if pen == ink {
        Seq::empty()
    } else {
        seq![CommandView::SetColors { fg: ink.0, bg: ink.1 }]
    }
}

/// The cursor move to cell `from` of a grid `width` wide, and the write of
/// the cells from there up to `to`.
pub open spec fn write_run(cells: Seq<Cell>, width: nat, from: int, to: int) -> Seq<CommandView> {
    seq![
        CommandView::MoveTo { x: (from % width as int) as u16, y: (from / width as int) as u16 },
        CommandView::Print { text: text_of(cells, from, to) },
    ]
}

/// The commands for cell `i`: none unless a run begins there, and then the
/// color command that the run needs, the cursor move and the write of the
/// whole run.
pub open spec fn commands_at(cells: Seq<Cell>, dirty: Seq<bool>, width: nat, i: int) -> Seq<
    CommandView,
> {
    if starts_run(cells, dirty, i) {
        paint(pen_at(cells, dirty, i), colors_of(cells[i])) + write_run(
            cells,
            width,
            i,
            run_end(cells, dirty, i, i + 1),
        )
    } else {
        Seq::empty()
    }
}

/// The commands for the cells before `n`, in the order of the cells.
pub open spec fn commands_before(cells: Seq<Cell>, dirty: Seq<bool>, width: nat, n: int) -> Seq<
    CommandView,
>
    decreases n,
{
    if n <= 0 {
        Seq::empty()
    } else {
        commands_before(cells, dirty, width, n - 1) + commands_at(cells, dirty, width, n - 1)
    }
}

/// The commands that write the cells marked in `dirty`: the reset of the
/// colors, then the commands of each run.
pub open spec fn content_commands(cells: Seq<Cell>, dirty: Seq<bool>, width: nat) -> Seq<
    CommandView,
> {
    seq![CommandView::SetColors { fg: Color::Reset, bg: Color::Reset }] + commands_before(
        cells,
        dirty,
        width,
        cells.len() as int,
    )
}

/// A run that reaches from `start` up to `i` ends where the run from
/// `start` up to `i + 1` ends, if cell `i` belongs to it.
proof fn lemma_run_end_extends(cells: Seq<Cell>, dirty: Seq<bool>, start: int, from: int, i: int)
    requires
        0 <= start < from <= i <= cells.len(),
        forall|k: int| from <= k < i ==> #[trigger] continues_run(cells, dirty, start, k),
    ensures
        run_end(cells, dirty, start, from) == run_end(cells, dirty, start, i),
    decreases i - from,
{
    if from < i {
        lemma_run_end_extends(cells, dirty, start, from + 1, i);
    }
}

/// No run begins inside a run, so the cells after its first add no command.
proof fn lemma_no_commands_inside_run(
    cells: Seq<Cell>,
    dirty: Seq<bool>,
    width: nat,
    start: int,
    i: int,
)
    requires
        0 <= start < i <= cells.len(),
        forall|k: int| start <= k < i ==> #[trigger] continues_run(cells, dirty, start, k),
    ensures
        commands_before(cells, dirty, width, i) == commands_before(cells, dirty, width, start + 1),
    decreases i - start,
{
    if start + 1 < i {
        lemma_no_commands_inside_run(cells, dirty, width, start, i - 1);
        assert(continues_run(cells, dirty, start, i - 1));
        assert(continues_run(cells, dirty, start, i - 2));
        assert(!starts_run(cells, dirty, i - 1));
    }
}

/// The commands up to the end of a run that begins at `start` and ends at
/// `end` are those before `start`, the color command of the run, its
/// cursor move and its write.
proof fn lemma_run_closed(cells: Seq<Cell>, dirty: Seq<bool>, width: nat, start: int, end: int)
    requires
        0 <= start < end <= cells.len(),
        starts_run(cells, dirty, start),
        forall|k: int| start <= k < end ==> #[trigger] continues_run(cells, dirty, start, k),
        end == cells.len() || !continues_run(cells, dirty, start, end),
    ensures
        commands_before(cells, dirty, width, end) == commands_before(cells, dirty, width, start)
            + paint(pen_at(cells, dirty, start), colors_of(cells[start])) + write_run(
            cells,
            width,
            start,
            end,
        ),
{
    lemma_run_end_extends(cells, dirty, start, start + 1, end);
    lemma_no_commands_inside_run(cells, dirty, width, start, end);
    assert(run_end(cells, dirty, start, end) == end);
    let before = commands_before(cells, dirty, width, start);
    let ink = paint(pen_at(cells, dirty, start), colors_of(cells[start]));
    let run = write_run(cells, width, start, end);
    assert(before + (ink + run) =~= before + ink + run);
}

/// The cursor move of a run goes to the position of its first cell: in a
/// grid of the given size, cell `from` is at the column and row that the
/// move names.
pub proof fn lemma_run_is_written_at_its_first_cell(
    cells: Seq<Cell>,
    width: nat,
    height: nat,
    from: int,
    to: int,
)
    requires
        width <= 0xffff,
        height <= 0xffff,
        0 <= from < width * height,
    ensures
        write_run(cells, width, from, to)[0] matches CommandView::MoveTo { x, y } && x < width && y
            < height && y * width + x == from,
{
    lemma_position_of_index(width, height, from);
}

/// The run from `start` ends after `i`, within the cells; every cell from
/// `i` up to its end belongs to it, and the cell at its end does not.
pub proof fn lemma_run_end_is_boundary(cells: Seq<Cell>, dirty: Seq<bool>, start: int, i: int)
    requires
        0 <= i <= cells.len(),
    ensures
        i <= run_end(cells, dirty, start, i) <= cells.len(),
        forall|k: int|
            i <= k < run_end(cells, dirty, start, i) ==> #[trigger] continues_run(
                cells,
                dirty,
                start,
                k,
            ),
        run_end(cells, dirty, start, i) == cells.len() || !continues_run(
            cells,
            dirty,
            start,
            run_end(cells, dirty, start, i),
        ),
    decreases cells.len() - i,
{
    if i < cells.len() && continues_run(cells, dirty, start, i) {
        lemma_run_end_is_boundary(cells, dirty, start, i + 1);
    }
}

/// Runs that begin at cells of the same colors end at the same cell.
proof fn lemma_run_end_by_colors(cells: Seq<Cell>, dirty: Seq<bool>, a: int, b: int, i: int)
    requires
        colors_of(cells[a]) == colors_of(cells[b]),
    ensures
        run_end(cells, dirty, a, i) == run_end(cells, dirty, b, i),
    decreases cells.len() - i,
{
    if i < cells.len() && continues_run(cells, dirty, a, i) {
        lemma_run_end_by_colors(cells, dirty, a, b, i + 1);
    }
}

/// The text that the commands write, in their order.
pub open spec fn printed_text(commands: Seq<CommandView>) -> Seq<char>
    decreases commands.len(),
{
    if commands.len() == 0 {
        Seq::empty()
    } else {
        printed_text(commands.drop_last()) + match commands.last() {
            CommandView::Print { text } => text,
            _ => Seq::empty(),
        }
    }
}

/// The text of two lists of commands, one after the other, is the text of
/// the first followed by the text of the second.
pub proof fn lemma_printed_text_concat(a: Seq<CommandView>, b: Seq<CommandView>)
    ensures
        printed_text(a + b) == printed_text(a) + printed_text(b),
    decreases b.len(),
{
    if b.len() == 0 {
        assert(a + b =~= a);
        assert(printed_text(a) + printed_text(b) =~= printed_text(a));
    } else {
        lemma_printed_text_concat(a, b.drop_last());
        assert((a + b).drop_last() =~= a + b.drop_last());
        assert((a + b).last() == b.last());
        let tail = match b.last() {
            CommandView::Print { text } => text,
            _ => Seq::empty(),
        };
        assert(printed_text(a) + printed_text(b.drop_last()) + tail =~= printed_text(a) + (
        printed_text(b.drop_last()) + tail));
    }
}

/// The commands of one run write the characters of the run.
proof fn lemma_printed_text_of_run(
    pen: (Color, Color),
    ink: (Color, Color),
    cells: Seq<Cell>,
    width: nat,
    from: int,
    to: int,
)
    ensures
        printed_text(paint(pen, ink) + write_run(cells, width, from, to)) == text_of(
            cells,
            from,
            to,
        ),
{
    let run = write_run(cells, width, from, to);
    lemma_printed_text_concat(paint(pen, ink), run);
    assert(run.drop_last() =~= seq![run[0]]);
    assert(run.drop_last().drop_last() =~= Seq::<CommandView>::empty());
    assert(printed_text(run.drop_last().drop_last()) =~= Seq::<char>::empty());
    assert(printed_text(run.drop_last()) =~= Seq::<char>::empty());
    assert(printed_text(run) =~= text_of(cells, from, to));
    if pen != ink {
        let color = paint(pen, ink);
        assert(color.drop_last() =~= Seq::<CommandView>::empty());
        assert(printed_text(color) =~= Seq::<char>::empty());
    }
    assert(printed_text(paint(pen, ink)) + printed_text(run) =~= text_of(cells, from, to));
}

/// The characters of the cells before `n` that are to be written, in the
/// order of the cells.
pub open spec fn written_text(cells: Seq<Cell>, dirty: Seq<bool>, n: int) -> Seq<char>
    decreases n,
{
    if n <= 0 {
        Seq::empty()
    } else if dirty[n - 1] {
        written_text(cells, dirty, n - 1).push(cells[n - 1].c)
    } else {
        written_text(cells, dirty, n - 1)
    }
}

/// Over a stretch of cells that are all to be written, the characters to
/// write are the characters of the cells.
proof fn lemma_written_text_of_run(cells: Seq<Cell>, dirty: Seq<bool>, from: int, to: int)
    requires
        0 <= from <= to,
        forall|k: int| from <= k < to ==> #[trigger] dirty[k],
    ensures
        written_text(cells, dirty, to) == written_text(cells, dirty, from) + text_of(
            cells,
            from,
            to,
        ),
    decreases to - from,
{
    if from < to {
        lemma_written_text_of_run(cells, dirty, from, to - 1);
        assert(dirty[to - 1]);
        assert(written_text(cells, dirty, from) + text_of(cells, from, to) =~= (written_text(
            cells,
            dirty,
            from,
        ) + text_of(cells, from, to - 1)).push(cells[to - 1].c));
    } else {
        assert(written_text(cells, dirty, from) + text_of(cells, from, to) =~= written_text(
            cells,
            dirty,
            from,
        ));
    }
}

/// Up to where the run of cell `n - 1` ends, if that cell is to be
/// written, and up to `n` else.
spec fn written_up_to(cells: Seq<Cell>, dirty: Seq<bool>, n: int) -> int {
    if n > 0 && dirty[n - 1] {
        run_end(cells, dirty, n - 1, n)
    } else {
        n
    }
}

/// The commands for the cells before `n` write the characters of the cells
/// to be written, up to the end of the run that holds cell `n - 1`.
proof fn lemma_text_before(cells: Seq<Cell>, dirty: Seq<bool>, width: nat, n: int)
    requires
        0 <= n <= cells.len(),
        dirty.len() == cells.len(),
    ensures
        printed_text(commands_before(cells, dirty, width, n)) == written_text(
            cells,
            dirty,
            written_up_to(cells, dirty, n),
        ),
    decreases n,
{
    if n == 0 {
        assert(printed_text(commands_before(cells, dirty, width, n)) =~= Seq::<char>::empty());
    } else {
        let i = n - 1;
        lemma_text_before(cells, dirty, width, i);
        let before = commands_before(cells, dirty, width, i);
        let here = commands_at(cells, dirty, width, i);
        lemma_printed_text_concat(before, here);
        if !dirty[i] {
            assert(printed_text(before) + printed_text(here) =~= printed_text(before));
            if i > 0 && dirty[i - 1] {
                assert(!continues_run(cells, dirty, i - 1, i));
            }
        } else if starts_run(cells, dirty, i) {
            let end = run_end(cells, dirty, i, n);
            lemma_run_end_is_boundary(cells, dirty, i, n);
            lemma_printed_text_of_run(
                pen_at(cells, dirty, i),
                colors_of(cells[i]),
                cells,
                width,
                i,
                end,
            );
            if i > 0 && dirty[i - 1] {
                assert(!continues_run(cells, dirty, i - 1, i));
            }
            assert forall|k: int| i <= k < end implies #[trigger] dirty[k] by {
                if k > i {
                    assert(continues_run(cells, dirty, i, k));
                }
            }
            lemma_written_text_of_run(cells, dirty, i, end);
        } else {
            assert(continues_run(cells, dirty, i - 1, i));
            lemma_run_end_by_colors(cells, dirty, i - 1, i, n);
            assert(printed_text(before) + printed_text(here) =~= printed_text(before));
        }
    }
}

/// A render writes the characters of the cells that are to be written, in
/// the order of the cells, and nothing else: the text of its commands, put
/// together in their order, is the text of those cells.
pub proof fn lemma_render_writes_marked_cells(cells: Seq<Cell>, dirty: Seq<bool>, width: nat)
    requires
        dirty.len() == cells.len(),
    ensures
        printed_text(content_commands(cells, dirty, width)) == written_text(
            cells,
            dirty,
            cells.len() as int,
        ),
{
    let n = cells.len() as int;
    let head = seq![CommandView::SetColors { fg: Color::Reset, bg: Color::Reset }];
    lemma_text_before(cells, dirty, width, n);
    lemma_printed_text_concat(head, commands_before(cells, dirty, width, n));
    assert(head.drop_last() =~= Seq::<CommandView>::empty());
    assert(printed_text(head.drop_last()) =~= Seq::<char>::empty());
    assert(printed_text(head) =~= Seq::<char>::empty());
    assert(written_up_to(cells, dirty, n) == n);
    assert(printed_text(head) + written_text(cells, dirty, n) =~= written_text(cells, dirty, n));
}

/// A full redraw writes the characters of all cells, row by row, and
/// nothing else: the text of its commands, put together in their order, is
/// the text of the grid.
pub proof fn lemma_redraw_writes_every_cell(cells: Seq<Cell>, width: nat)
    ensures
        printed_text(content_commands(cells, all_cells(cells.len()), width)) == text_of(
            cells,
            0,
            cells.len() as int,
        ),
{
    let dirty = all_cells(cells.len());
    let n = cells.len() as int;
    lemma_render_writes_marked_cells(cells, dirty, width);
    lemma_written_text_of_run(cells, dirty, 0, n);
    assert(written_text(cells, dirty, 0) + text_of(cells, 0, n) =~= text_of(cells, 0, n));
}

/// In a full redraw the cursor moves and color commands stand exactly
/// where the colors change. A cell with the colors of the cell before it
/// gets no command. Any other cell gets the color command for its colors
/// (the first cell only if they are not the reset colors), the cursor move
/// to its position and one write, which reaches up to the next cell with
/// other colors or to the end of the grid.
pub proof fn lemma_redraw_commands_at_color_changes(cells: Seq<Cell>, width: nat, i: int)
    requires
        0 <= i < cells.len(),
    ensures
        ({
            let dirty = all_cells(cells.len());
            let end = run_end(cells, dirty, i, i + 1);
            let pen = if i == 0 {
                reset_colors()
            } else {
                colors_of(cells[i - 1])
            };
            &&& i < end <= cells.len()
            &&& forall|k: int|
                i <= k < end ==> colors_of(#[trigger] cells[k]) == colors_of(cells[i])
            &&& end == cells.len() || colors_of(cells[end]) != colors_of(cells[i])
            &&& commands_at(cells, dirty, width, i) == if colors_of(cells[i]) == pen {
                if i == 0 {
                    write_run(cells, width, i, end)
                } else {
                    Seq::empty()
                }
            } else {
                seq![CommandView::SetColors { fg: cells[i].fg_color, bg: cells[i].bg_color }]
                    + write_run(cells, width, i, end)
            }
        }),
{
    let dirty = all_cells(cells.len());
    let end = run_end(cells, dirty, i, i + 1);
    lemma_run_end_is_boundary(cells, dirty, i, i + 1);
    assert forall|k: int| i <= k < end implies colors_of(#[trigger] cells[k]) == colors_of(
        cells[i],
    ) by {
        if k > i {
            assert(continues_run(cells, dirty, i, k));
        }
    }
    if colors_of(cells[i]) == reset_colors() && i == 0 {
        assert(paint(reset_colors(), colors_of(cells[i])) + write_run(cells, width, i, end)
            =~= write_run(cells, width, i, end));
    }
}

/// Cells that need no writing get no command: where no cell before `n` is
/// marked, there is no command for the cells before `n`.
pub proof fn lemma_clean_cells_get_no_command(
    cells: Seq<Cell>,
    dirty: Seq<bool>,
    width: nat,
    n: int,
)
    requires
        forall|k: int| 0 <= k < n ==> !#[trigger] dirty[k],
    ensures
        commands_before(cells, dirty, width, n) == Seq::<CommandView>::empty(),
    decreases n,
{
    if n > 0 {
        lemma_clean_cells_get_no_command(cells, dirty, width, n - 1);
        assert(!dirty[n - 1]);
    }
}

/// The commands that write cells are color commands, cursor moves and
/// writes, and nothing else.
pub proof fn lemma_content_command_kinds(
    cells: Seq<Cell>,
    dirty: Seq<bool>,
    width: nat,
    n: int,
    k: int,
)
    requires
        0 <= k < commands_before(cells, dirty, width, n).len(),
    ensures
        ({
            let command = commands_before(cells, dirty, width, n)[k];
            command is SetColors || command is MoveTo || command is Print
        }),
    decreases n,
{
    if n > 0 {
        let before = commands_before(cells, dirty, width, n - 1);
        if k < before.len() {
            lemma_content_command_kinds(cells, dirty, width, n - 1, k);
        }
    }
}

/// Appends to `out` the cursor move to cell `start` and the write of the
/// cells from `start` up to `end`.
fn push_run(out: &mut Vec<Command>, grid: &Grid, start: usize, end: usize)
    requires
        grid@.wf(),
        start < end <= grid@.cells.len(),
    ensures
        final(out).deep_view() == old(out).deep_view() + write_run(
            grid@.cells,
            grid@.width,
            start as int,
            end as int,
        ),
{
    let width: usize = grid.width() as usize;
    let ghost cells = grid@.cells;
    let mut text = String::new();
    let mut k: usize = start;
    while k < end
        invariant
            start <= k <= end <= grid@.cells.len(),
            cells == grid@.cells,
            text@ == text_of(cells, start as int, k as int),
        decreases end - k,
    {
        text.push(grid.cell(k).c);
        k += 1;
        assert(text@ =~= text_of(cells, start as int, k as int));
    }
    proof {
        lemma_position_of_index(grid@.width, grid@.height, start as int);
    }
    let x: u16 = (start % width) as u16;
    let y: u16 = (start / width) as u16;
    assert(x == start % width && y == start / width);
    let ghost before = out.deep_view();
    out.push(Command::MoveTo(x, y));
    out.push(Command::Print(text));
    assert(out.deep_view() =~= before + write_run(cells, grid@.width, start as int, end as int));
}

/// The cells of `front` that a scan writes: all of them without a back
/// grid, else those that differ from `back`.
pub open spec fn cells_to_write(front: Seq<Cell>, back: Option<Seq<Cell>>) -> Seq<bool> {
    match back {
        None => all_cells(front.len()),
        Some(back) => changed_cells(front, back),
    }
}

/// The commands that write the cells of `front`: all of them without a
/// back grid, else those that differ from `back`.
fn scan(front: &Grid, back: Option<&Grid>) -> (out: Vec<Command>)
    requires
        front@.wf(),
        back matches Some(back) ==> back@.wf() && back@.cells.len() == front@.cells.len(),
    ensures
        out.deep_view() == content_commands(
            front@.cells,
            cells_to_write(
                front@.cells,
                match back {
                    None => None,
                    Some(back) => Some(back@.cells),
                },
            ),
            front@.width,
        ),
{
    let n: usize = front.len();
    let ghost cells = front@.cells;
    let ghost width = front@.width;
    let ghost dirty = cells_to_write(
        cells,
        match back {
            None => None,
            Some(back) => Some(back@.cells),
        },
    );
    let ghost head = seq![CommandView::SetColors { fg: Color::Reset, bg: Color::Reset }];
    let mut out: Vec<Command> = Vec::new();
    out.push(Command::SetColors(Color::Reset, Color::Reset));
    assert(out.deep_view() =~= head);
    let mut fg = Color::Reset;
    let mut bg = Color::Reset;
    let mut start: usize = 0;
    let mut i: usize = 0;
    while i < n
        invariant
            front@.wf(),
            back matches Some(back) ==> back@.wf() && back@.cells.len() == front@.cells.len(),
            cells == front@.cells,
            width == front@.width,
            n == cells.len(),
            dirty.len() == cells.len(),
            forall|k: int|
                0 <= k < n ==> dirty[k] == match back {
                    None => true,
                    Some(back) => cells[k] != back@.cells[k],
                },
            head == seq![CommandView::SetColors { fg: Color::Reset, bg: Color::Reset }],
            start <= i <= n,
            (fg, bg) == pen_at(cells, dirty, i as int),
            forall|k: int|
                start <= k < i ==> #[trigger] continues_run(cells, dirty, start as int, k),
            start == i ==> i == 0 || !dirty[i - 1],
            start < i ==> starts_run(cells, dirty, start as int),
            out.deep_view() == head + commands_before(cells, dirty, width, start as int) + (if start
                < i {
                paint(pen_at(cells, dirty, start as int), colors_of(cells[start as int]))
            } else {
                Seq::empty()
            }),
        decreases n - i,
    {
        let cell = front.cell(i);
        let is_dirty = match back {
            None => true,
            Some(back) => cell != back.cell(i),
        };
        let differs = cell.fg_color != fg || cell.bg_color != bg;
        assert(dirty[i as int] == is_dirty);
        proof {
            if start < i {
                assert(continues_run(cells, dirty, start as int, i - 1));
                assert(continues_run(cells, dirty, start as int, i as int) == (is_dirty
                    && !differs));
            }
        }
        if start < i && (!is_dirty || differs) {
            proof {
                lemma_run_closed(cells, dirty, width, start as int, i as int);
            }
            push_run(&mut out, front, start, i);
            assert(out.deep_view() =~= head + commands_before(cells, dirty, width, i as int));
            start = i;
        }
        if !is_dirty {
            i += 1;
            start = i;
        } else {
            if differs {
                fg = cell.fg_color;
                bg = cell.bg_color;
                let ghost before = out.deep_view();
                out.push(Command::SetColors(fg, bg));
                assert(out.deep_view() =~= before + paint(
                    pen_at(cells, dirty, i as int),
                    colors_of(cell),
                ));
            }
            i += 1;
        }
    }
    if start < i {
        proof {
            lemma_run_closed(cells, dirty, width, start as int, i as int);
        }
        push_run(&mut out, front, start, i);
        assert(out.deep_view() =~= head + commands_before(cells, dirty, width, i as int));
    }
    out
}

/// The commands of a full redraw: they write every cell of `front`,
/// whatever the terminal shows.
pub fn full_redraw(front: &Grid) -> (out: Vec<Command>)
    requires
        front@.wf(),
    ensures
        out.deep_view() == content_commands(
            front@.cells,
            all_cells(front@.cells.len()),
            front@.width,
        ),
{
    scan(front, None)
}

/// The commands that take a terminal which shows `back` to showing
/// `front`: they write the cells in which the two differ, and no other.
pub fn changes(front: &Grid, back: &Grid) -> (out: Vec<Command>)
    requires
        front@.wf(),
        back@.wf(),
        back@.cells.len() == front@.cells.len(),
    ensures
        out.deep_view() == content_commands(
            front@.cells,
            changed_cells(front@.cells, back@.cells),
            front@.width,
        ),
{
    scan(front, Some(back))
}

} // verus!
