use termscreen::{ClearType, Color, Command, Screen};

fn reset() -> Command {
    Command::SetColors(Color::Reset, Color::Reset)
}

fn text(s: &str) -> Command {
    Command::Print(s.to_string())
}

/// The characters of the grid, row after row, as a full redraw writes them.
fn characters(screen: &Screen) -> String {
    let mut all = String::new();
    for command in screen.print_whole_screen() {
        if let Command::Print(s) = command {
            all.push_str(&s);
        }
    }
    all
}

#[test]
fn print_example_three_by_two() {
    let mut screen = Screen::new(3, 2);
    screen.print("AB\nCDE");
    assert_eq!(characters(&screen), "AB CDE");
    assert_eq!(screen.get_cursor(), (0, 0));
    assert_eq!(
        screen.print_whole_screen(),
        vec![reset(), Command::MoveTo(0, 0), text("AB CDE")]
    );
}

#[test]
fn print_example_in_a_taller_grid_ends_on_the_next_row() {
    let mut screen = Screen::new(3, 3);
    screen.print("AB\nCDE");
    assert_eq!(characters(&screen), "AB CDE   ");
    assert_eq!(screen.get_cursor(), (0, 2));
}

#[test]
fn print_char_advances_the_cursor() {
    let mut screen = Screen::new(4, 2);
    screen.print_char('a');
    assert_eq!(screen.get_cursor(), (1, 0));
    screen.print_char('b');
    screen.print_char('c');
    assert_eq!(screen.get_cursor(), (3, 0));
    screen.print_char('d');
    assert_eq!(screen.get_cursor(), (0, 1));
    assert_eq!(characters(&screen), "abcd    ");
}

#[test]
fn print_char_newline_writes_nothing() {
    let mut screen = Screen::new(4, 2);
    screen.print_char('a');
    screen.print_char('\n');
    assert_eq!(screen.get_cursor(), (0, 1));
    screen.print_char('\n');
    assert_eq!(screen.get_cursor(), (0, 0));
    assert_eq!(characters(&screen), "a       ");
}

#[test]
fn print_is_print_char_of_each_character() {
    let message = "hello\nwide world\n!";
    let mut whole = Screen::new(7, 3);
    whole.print(message);
    let mut single = Screen::new(7, 3);
    for c in message.chars() {
        single.print_char(c);
    }
    assert_eq!(whole.get_cursor(), single.get_cursor());
    assert_eq!(whole.print_whole_screen(), single.print_whole_screen());
}

#[test]
fn print_of_nothing_changes_nothing() {
    let mut screen = Screen::new(3, 2);
    screen.move_to(1, 1);
    screen.print("");
    assert_eq!(screen.get_cursor(), (1, 1));
    assert_eq!(characters(&screen), "      ");
}

#[test]
fn print_wraps_to_the_next_row_and_from_the_last_to_the_first() {
    let mut screen = Screen::new(4, 3);
    screen.move_to(2, 1);
    // place 6 of 12; "0123456789" fills places 6..12 and 0..4
    screen.print("0123456789");
    assert_eq!(characters(&screen), "6789  012345");
    // (6 + 10) % 12 = 4
    assert_eq!(screen.get_cursor(), (0, 1));
}

#[test]
fn print_longer_than_the_window_keeps_the_last_characters() {
    let mut screen = Screen::new(3, 2);
    screen.move_to(1, 0);
    screen.print("abcdefghij");
    // places 1, 2, 3, 4, 5, 0, 1, 2, 3, 4
    assert_eq!(characters(&screen), "fghije");
    assert_eq!(screen.get_cursor(), (2, 1));
}

#[test]
fn print_handles_characters_of_several_bytes() {
    let mut screen = Screen::new(3, 1);
    screen.print("\u{e9}\u{4e16}z");
    assert_eq!(characters(&screen), "\u{e9}\u{4e16}z");
    assert_eq!(screen.get_cursor(), (0, 0));
}

#[test]
fn print_in_a_window_stays_in_the_window() {
    let mut screen = Screen::new(6, 4);
    screen.begin_window(2, 1, 3, 2);
    screen.print("abcdefgh");
    screen.end_window();
    assert_eq!(characters(&screen), concat_rows(&["      ", "  ghc ", "  def ", "      "]));
}

fn concat_rows(rows: &[&str]) -> String {
    let mut all = String::new();
    for row in rows {
        all.push_str(row);
    }
    all
}

#[test]
fn newline_in_a_window_wraps_at_the_bottom_of_the_window() {
    // the window is wider than it is high, and not at the top of the grid
    let mut screen = Screen::new(10, 10);
    screen.begin_window(1, 4, 6, 2);
    screen.print("a\nb\nc");
    assert_eq!(screen.get_cursor(), (1, 0));
    screen.end_window();
    let rows = [
        "          ",
        "          ",
        "          ",
        "          ",
        " c        ",
        " b        ",
        "          ",
        "          ",
        "          ",
        "          ",
    ];
    assert_eq!(characters(&screen), concat_rows(&rows));
}

#[test]
fn newline_in_a_high_window_goes_down_to_its_last_row() {
    // the window is higher than its left edge is far from the grid's
    let mut screen = Screen::new(10, 10);
    screen.begin_window(1, 0, 3, 5);
    screen.print("a\nb\nc\nd\ne\nf");
    assert_eq!(screen.get_cursor(), (1, 0));
    screen.end_window();
    let text = characters(&screen);
    assert_eq!(&text[0..10], " f        ");
    assert_eq!(&text[10..20], " b        ");
    assert_eq!(&text[20..30], " c        ");
    assert_eq!(&text[30..40], " d        ");
    assert_eq!(&text[40..50], " e        ");
    assert_eq!(&text[50..60], "          ");
}

#[test]
fn print_at_moves_then_prints() {
    let mut screen = Screen::new(5, 2);
    screen.print_at(3, 1, "xy!");
    assert_eq!(characters(&screen), "!       xy");
    assert_eq!(screen.get_cursor(), (1, 0));
    screen.print_at(9, 9, "z");
    assert_eq!(characters(&screen), "!       xz");
}

#[test]
fn colors_apply_to_cells_written_afterwards_only() {
    let mut screen = Screen::new(4, 1);
    screen.print("a");
    screen.set_colors(Color::Red, Color::Blue);
    screen.print("b");
    screen.set_foreground_color(Color::Green);
    screen.print("c");
    screen.set_background_color(Color::AnsiValue(3));
    screen.clear_colors();
    screen.print("d");
    assert_eq!(
        screen.print_whole_screen(),
        vec![
            reset(),
            Command::MoveTo(0, 0),
            text("a"),
            Command::SetColors(Color::Red, Color::Blue),
            Command::MoveTo(1, 0),
            text("b"),
            Command::SetColors(Color::Green, Color::Blue),
            Command::MoveTo(2, 0),
            text("c"),
            reset(),
            Command::MoveTo(3, 0),
            text("d"),
        ]
    );
}

#[test]
fn set_background_color_keeps_the_foreground() {
    let mut screen = Screen::new(1, 1);
    screen.set_foreground_color(Color::Yellow);
    screen.set_background_color(Color::Rgb { r: 9, g: 8, b: 7 });
    screen.print("x");
    assert_eq!(
        screen.print_whole_screen(),
        vec![
            reset(),
            Command::SetColors(Color::Yellow, Color::Rgb { r: 9, g: 8, b: 7 }),
            Command::MoveTo(0, 0),
            text("x"),
        ]
    );
}

fn full(width: u16, height: u16) -> Screen {
    let mut screen = Screen::new(width, height);
    for _ in 0..(width as usize * height as usize) {
        screen.print_char('#');
    }
    screen
}

#[test]
fn clear_all_empties_the_whole_grid() {
    let mut screen = full(4, 3);
    screen.clear(ClearType::All);
    assert_eq!(characters(&screen), "            ");
}

#[test]
fn clear_all_in_a_window_empties_the_window_only() {
    let mut screen = full(5, 4);
    screen.begin_window(1, 1, 3, 2);
    screen.clear(ClearType::All);
    assert_eq!(characters(&screen), concat_rows(&["#####", "#   #", "#   #", "#####"]));
}

#[test]
fn clear_current_line_empties_the_row_of_the_window() {
    let mut screen = full(5, 4);
    screen.move_to(2, 1);
    screen.clear(ClearType::CurrentLine);
    assert_eq!(characters(&screen), concat_rows(&["#####", "     ", "#####", "#####"]));
    let mut screen = full(5, 4);
    screen.begin_window(1, 1, 3, 3);
    screen.move_to(2, 1);
    screen.clear(ClearType::CurrentLine);
    assert_eq!(characters(&screen), concat_rows(&["#####", "#####", "#   #", "#####"]));
}

#[test]
fn clear_until_newline_empties_from_the_cursor_on() {
    let mut screen = full(5, 4);
    screen.move_to(2, 3);
    screen.clear(ClearType::UntilNewline);
    assert_eq!(characters(&screen), concat_rows(&["#####", "#####", "#####", "##   "]));
    let mut screen = full(5, 4);
    screen.begin_window(1, 0, 3, 2);
    screen.move_to(1, 1);
    screen.clear(ClearType::UntilNewline);
    assert_eq!(characters(&screen), concat_rows(&["#####", "##  #", "#####", "#####"]));
}

#[test]
fn clear_current_empties_the_cell_under_the_cursor() {
    let mut screen = full(5, 4);
    screen.begin_window(2, 1, 3, 3);
    screen.move_to(1, 2);
    screen.clear(ClearType::Current);
    assert_eq!(characters(&screen), concat_rows(&["#####", "#####", "#####", "### #"]));
    assert_eq!(screen.get_cursor(), (1, 2));
}

#[test]
fn clear_resets_the_colors_of_the_cells() {
    let mut screen = Screen::new(2, 1);
    screen.set_colors(Color::Red, Color::Blue);
    screen.print("ab");
    screen.clear(ClearType::All);
    assert_eq!(
        screen.print_whole_screen(),
        vec![reset(), Command::MoveTo(0, 0), text("  ")]
    );
}
