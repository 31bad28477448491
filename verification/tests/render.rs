use termscreen::{Color, Command, CursorStyle, Screen};

fn reset() -> Command {
    Command::SetColors(Color::Reset, Color::Reset)
}

fn text(s: &str) -> Command {
    Command::Print(s.to_string())
}

fn render(screen: &mut Screen) -> Vec<Command> {
    let commands = screen.show();
    for command in &commands {
        screen.acknowledge(command);
    }
    commands
}

fn writes(commands: &[Command]) -> usize {
    commands.iter().filter(|c| matches!(c, Command::Print(_))).count()
}

#[test]
fn full_redraw_of_an_empty_screen_is_one_run() {
    let screen = Screen::new(3, 2);
    assert_eq!(
        screen.print_whole_screen(),
        vec![reset(), Command::MoveTo(0, 0), text("      ")]
    );
}

#[test]
fn full_redraw_text_is_the_grid_row_by_row() {
    let mut screen = Screen::new(4, 3);
    screen.set_colors(Color::Red, Color::Black);
    screen.print("ab");
    screen.set_colors(Color::Blue, Color::White);
    screen.print("cdefg");
    screen.clear_colors();
    screen.print("h");
    let mut all = String::new();
    for command in screen.print_whole_screen() {
        if let Command::Print(s) = command {
            all.push_str(&s);
        }
    }
    assert_eq!(all, "abcdefgh    ");
}

#[test]
fn full_redraw_breaks_runs_where_the_colors_change() {
    let mut screen = Screen::new(4, 3);
    screen.set_colors(Color::Red, Color::Black);
    screen.print("ab");
    screen.set_colors(Color::Blue, Color::White);
    screen.print("cdefg");
    screen.clear_colors();
    screen.print("h");
    assert_eq!(
        screen.print_whole_screen(),
        vec![
            reset(),
            Command::SetColors(Color::Red, Color::Black),
            Command::MoveTo(0, 0),
            text("ab"),
            Command::SetColors(Color::Blue, Color::White),
            Command::MoveTo(2, 0),
            text("cdefg"),
            reset(),
            // cell 7 of a grid 4 wide: column 7 % 4, row 7 / 4
            Command::MoveTo(3, 1),
            text("h    "),
        ]
    );
}

#[test]
fn full_redraw_splits_on_the_background_alone() {
    let mut screen = Screen::new(3, 1);
    screen.print("a");
    screen.set_background_color(Color::Grey);
    screen.print("b");
    assert_eq!(
        screen.print_whole_screen(),
        vec![
            reset(),
            Command::MoveTo(0, 0),
            text("a"),
            Command::SetColors(Color::Reset, Color::Grey),
            Command::MoveTo(1, 0),
            text("b"),
            reset(),
            Command::MoveTo(2, 0),
            text(" "),
        ]
    );
}

#[test]
fn full_redraw_does_not_depend_on_the_back_grid() {
    let mut screen = Screen::new(3, 2);
    screen.print("abc");
    let before = screen.print_whole_screen();
    render(&mut screen);
    assert_eq!(screen.print_whole_screen(), before);
}

#[test]
fn first_render_writes_the_cells_that_are_not_empty() {
    let mut screen = Screen::new(3, 2);
    screen.print("AB\nCDE");
    assert_eq!(
        screen.show(),
        vec![
            reset(),
            Command::MoveTo(0, 0),
            text("AB"),
            Command::MoveTo(0, 1),
            text("CDE"),
            Command::MoveTo(0, 0),
            Command::Flush,
        ]
    );
}

#[test]
fn render_of_a_fresh_screen_writes_nothing() {
    let screen = Screen::new(5, 5);
    assert_eq!(screen.show(), vec![reset(), Command::MoveTo(0, 0), Command::Flush]);
}

#[test]
fn second_render_writes_no_cell() {
    let mut screen = Screen::new(6, 3);
    screen.set_colors(Color::Red, Color::Blue);
    screen.print("hello\nworld");
    screen.hide_cursor();
    screen.set_cursor_style(CursorStyle::SteadyBar);
    let first = render(&mut screen);
    assert!(writes(&first) > 0);
    let second = screen.show();
    assert_eq!(writes(&second), 0);
    assert_eq!(second, vec![reset(), Command::MoveTo(5, 1), Command::Flush]);
}

#[test]
fn render_writes_the_changed_cells_only() {
    let mut screen = Screen::new(8, 2);
    screen.print("abcdefgh");
    render(&mut screen);
    screen.move_to(2, 0);
    screen.print("XY");
    screen.move_to(6, 0);
    screen.print("Z");
    assert_eq!(
        screen.show(),
        vec![
            reset(),
            Command::MoveTo(2, 0),
            text("XY"),
            Command::MoveTo(6, 0),
            text("Z"),
            Command::MoveTo(7, 0),
            Command::Flush,
        ]
    );
}

#[test]
fn render_skips_a_cell_written_with_what_it_held() {
    let mut screen = Screen::new(4, 1);
    screen.print("abcd");
    render(&mut screen);
    screen.print("aXcY");
    assert_eq!(
        screen.show(),
        vec![
            reset(),
            Command::MoveTo(1, 0),
            text("X"),
            Command::MoveTo(3, 0),
            text("Y"),
            Command::MoveTo(0, 0),
            Command::Flush,
        ]
    );
}

#[test]
fn render_sees_a_change_of_color_alone() {
    let mut screen = Screen::new(3, 1);
    screen.print("abc");
    render(&mut screen);
    screen.set_foreground_color(Color::Cyan);
    screen.move_to(1, 0);
    screen.print("b");
    assert_eq!(
        screen.show(),
        vec![
            reset(),
            Command::SetColors(Color::Cyan, Color::Reset),
            Command::MoveTo(1, 0),
            text("b"),
            Command::MoveTo(2, 0),
            Command::Flush,
        ]
    );
}

#[test]
fn render_sets_colors_only_when_they_differ_from_the_last_set() {
    let mut screen = Screen::new(6, 1);
    screen.set_colors(Color::Red, Color::Black);
    screen.print("a");
    screen.move_to(2, 0);
    screen.print("b");
    screen.set_colors(Color::Green, Color::Black);
    screen.move_to(4, 0);
    screen.print("cd");
    assert_eq!(
        screen.show(),
        vec![
            reset(),
            Command::SetColors(Color::Red, Color::Black),
            Command::MoveTo(0, 0),
            text("a"),
            Command::MoveTo(2, 0),
            text("b"),
            Command::SetColors(Color::Green, Color::Black),
            Command::MoveTo(4, 0),
            text("cd"),
            Command::MoveTo(0, 0),
            Command::Flush,
        ]
    );
}

#[test]
fn render_breaks_a_run_of_changed_cells_where_the_colors_change() {
    let mut screen = Screen::new(4, 1);
    screen.print("ab");
    screen.set_colors(Color::Red, Color::Black);
    screen.print("cd");
    assert_eq!(
        screen.show(),
        vec![
            reset(),
            Command::MoveTo(0, 0),
            text("ab"),
            Command::SetColors(Color::Red, Color::Black),
            Command::MoveTo(2, 0),
            text("cd"),
            Command::MoveTo(0, 0),
            Command::Flush,
        ]
    );
}

#[test]
fn render_run_goes_on_over_the_end_of_a_row() {
    let mut screen = Screen::new(3, 3);
    screen.move_to(1, 0);
    screen.print("abcde");
    assert_eq!(
        screen.show(),
        vec![
            reset(),
            Command::MoveTo(1, 0),
            text("abcde"),
            Command::MoveTo(0, 2),
            Command::Flush,
        ]
    );
}

#[test]
fn render_tells_the_cursor_shape_once() {
    let mut screen = Screen::new(2, 1);
    assert_eq!(screen.get_cursor_style(), CursorStyle::DefaultUserShape);
    screen.set_cursor_style(CursorStyle::BlinkingBlock);
    assert_eq!(screen.get_cursor_style(), CursorStyle::BlinkingBlock);
    assert_eq!(
        render(&mut screen),
        vec![
            reset(),
            Command::SetCursorStyle(CursorStyle::BlinkingBlock),
            Command::MoveTo(0, 0),
            Command::Flush,
        ]
    );
    assert_eq!(screen.show(), vec![reset(), Command::MoveTo(0, 0), Command::Flush]);
    screen.set_cursor_style(CursorStyle::SteadyUnderScore);
    screen.set_cursor_style(CursorStyle::BlinkingBlock);
    assert_eq!(screen.show(), vec![reset(), Command::MoveTo(0, 0), Command::Flush]);
}

#[test]
fn render_tells_the_cursor_visibility_once() {
    let mut screen = Screen::new(2, 1);
    assert!(screen.get_cursor_visibility());
    screen.hide_cursor();
    assert!(!screen.get_cursor_visibility());
    assert_eq!(
        render(&mut screen),
        vec![reset(), Command::HideCursor, Command::MoveTo(0, 0), Command::Flush]
    );
    assert_eq!(screen.show(), vec![reset(), Command::MoveTo(0, 0), Command::Flush]);
    screen.show_cursor();
    assert!(screen.get_cursor_visibility());
    assert_eq!(
        render(&mut screen),
        vec![reset(), Command::ShowCursor, Command::MoveTo(0, 0), Command::Flush]
    );
    screen.set_cursor_visibility(false);
    screen.set_cursor_visibility(true);
    assert_eq!(screen.show(), vec![reset(), Command::MoveTo(0, 0), Command::Flush]);
}

#[test]
fn render_orders_content_shape_visibility_move_flush() {
    let mut screen = Screen::new(2, 1);
    screen.print("x");
    screen.set_cursor_style(CursorStyle::SteadyBlock);
    screen.hide_cursor();
    assert_eq!(
        screen.show(),
        vec![
            reset(),
            Command::MoveTo(0, 0),
            text("x"),
            Command::SetCursorStyle(CursorStyle::SteadyBlock),
            Command::HideCursor,
            Command::MoveTo(1, 0),
            Command::Flush,
        ]
    );
}

#[test]
fn render_moves_the_cursor_to_its_cell_in_the_terminal() {
    let mut screen = Screen::new(10, 10);
    screen.begin_window(3, 4, 5, 5);
    screen.move_to(1, 2);
    let commands = screen.show();
    assert_eq!(commands[commands.len() - 2], Command::MoveTo(4, 6));
}

#[test]
fn a_render_that_stops_early_leaves_the_back_grid() {
    let mut screen = Screen::new(4, 1);
    screen.print("ab");
    screen.set_cursor_style(CursorStyle::SteadyBar);
    screen.hide_cursor();
    let commands = screen.show();
    // the terminal takes everything up to the cursor shape, then fails
    for command in &commands[..4] {
        screen.acknowledge(command);
    }
    assert_eq!(commands[3], Command::SetCursorStyle(CursorStyle::SteadyBar));
    assert_eq!(
        screen.show(),
        vec![
            reset(),
            Command::MoveTo(0, 0),
            text("ab"),
            Command::HideCursor,
            Command::MoveTo(2, 0),
            Command::Flush,
        ]
    );
}

#[test]
fn a_render_without_its_flush_is_not_done() {
    let mut screen = Screen::new(4, 1);
    screen.print("ab");
    let commands = screen.show();
    for command in &commands[..commands.len() - 1] {
        screen.acknowledge(command);
    }
    assert_eq!(writes(&screen.show()), 1);
    screen.acknowledge(&Command::Flush);
    assert_eq!(writes(&screen.show()), 0);
}

#[test]
fn force_redraw_makes_the_next_render_write_every_cell() {
    let mut screen = Screen::new(3, 2);
    screen.print("ab");
    render(&mut screen);
    screen.force_redraw();
    assert_eq!(
        render(&mut screen),
        vec![
            reset(),
            Command::MoveTo(0, 0),
            text("ab    "),
            Command::MoveTo(2, 0),
            Command::Flush,
        ]
    );
    assert_eq!(writes(&screen.show()), 0);
}

#[test]
fn acknowledging_content_commands_changes_nothing() {
    let mut screen = Screen::new(3, 1);
    screen.print("ab");
    let before = screen.show();
    screen.acknowledge(&reset());
    screen.acknowledge(&Command::MoveTo(1, 0));
    screen.acknowledge(&text("zz"));
    assert_eq!(screen.show(), before);
    assert_eq!(screen.get_cursor(), (2, 0));
}
