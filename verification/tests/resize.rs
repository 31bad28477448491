use termscreen::{Color, Command, Screen};

fn reset() -> Command {
    Command::SetColors(Color::Reset, Color::Reset)
}

fn text(s: &str) -> Command {
    Command::Print(s.to_string())
}

fn characters(screen: &Screen) -> String {
    let mut all = String::new();
    for command in screen.print_whole_screen() {
        if let Command::Print(s) = command {
            all.push_str(&s);
        }
    }
    all
}

fn lettered(width: u16, height: u16) -> Screen {
    let mut screen = Screen::new(width, height);
    for i in 0..(width as u32 * height as u32) {
        screen.print_char(char::from_u32('a' as u32 + i).unwrap());
    }
    screen
}

#[test]
fn resize_larger_keeps_the_cells() {
    let mut screen = lettered(3, 2);
    screen.resize(5, 3);
    assert_eq!(screen.get_size(), (5, 3));
    assert_eq!(characters(&screen), "abc  def       ");
}

#[test]
fn resize_smaller_keeps_the_top_left() {
    let mut screen = lettered(4, 3);
    screen.resize(2, 2);
    assert_eq!(screen.get_size(), (2, 2));
    assert_eq!(characters(&screen), "abef");
}

#[test]
fn resize_wider_and_shorter() {
    let mut screen = lettered(2, 3);
    screen.resize(4, 2);
    assert_eq!(characters(&screen), "ab  cd  ");
}

#[test]
fn resize_there_and_back_loses_what_was_cut() {
    let mut screen = lettered(3, 3);
    screen.resize(2, 2);
    screen.resize(3, 3);
    assert_eq!(characters(&screen), "ab de    ");
}

#[test]
fn resize_to_nothing_gives_one_cell() {
    let mut screen = lettered(3, 2);
    screen.move_to(2, 1);
    screen.resize(0, 0);
    assert_eq!(screen.get_size(), (1, 1));
    assert_eq!(screen.get_cursor(), (0, 0));
    assert_eq!(characters(&screen), " ");
    let mut screen = lettered(3, 2);
    screen.resize(0, 2);
    assert_eq!(screen.get_size(), (1, 2));
    assert_eq!(characters(&screen), "  ");
    let mut screen = lettered(3, 2);
    screen.resize(1, 2);
    assert_eq!(characters(&screen), "ad");
}

#[test]
fn resize_keeps_the_colors_of_the_cells() {
    let mut screen = Screen::new(2, 1);
    screen.set_colors(Color::Red, Color::Blue);
    screen.print("x");
    screen.resize(3, 1);
    assert_eq!(
        screen.print_whole_screen(),
        vec![
            reset(),
            Command::SetColors(Color::Red, Color::Blue),
            Command::MoveTo(0, 0),
            text("x"),
            reset(),
            Command::MoveTo(1, 0),
            text("  "),
        ]
    );
}

#[test]
fn resize_cuts_both_cursors_down() {
    let mut screen = Screen::new(10, 10);
    screen.move_to(8, 9);
    screen.save_cursor();
    screen.move_to(9, 3);
    screen.resize(5, 6);
    assert_eq!(screen.get_cursor(), (4, 3));
    screen.restore_cursor();
    assert_eq!(screen.get_cursor(), (4, 5));
}

#[test]
fn resize_keeps_cursors_that_fit() {
    let mut screen = Screen::new(10, 10);
    screen.move_to(2, 3);
    screen.save_cursor();
    screen.move_to(1, 1);
    screen.resize(20, 5);
    assert_eq!(screen.get_cursor(), (1, 1));
    screen.restore_cursor();
    assert_eq!(screen.get_cursor(), (2, 3));
}

#[test]
fn render_after_resize_writes_every_cell() {
    let mut screen = lettered(3, 2);
    for command in screen.show() {
        screen.acknowledge(&command);
    }
    screen.resize(3, 2);
    assert_eq!(
        screen.show(),
        vec![
            reset(),
            Command::MoveTo(0, 0),
            text("abcdef"),
            Command::MoveTo(0, 0),
            Command::Flush,
        ]
    );
    for command in screen.show() {
        screen.acknowledge(&command);
    }
    assert_eq!(screen.show(), vec![reset(), Command::MoveTo(0, 0), Command::Flush]);
}

#[test]
fn resize_keeps_windows_that_fit() {
    let mut screen = Screen::new(20, 10);
    screen.begin_window(2, 2, 8, 5);
    screen.begin_window(1, 1, 4, 3);
    screen.move_to(3, 2);
    screen.resize(30, 12);
    assert_eq!(screen.get_size(), (4, 3));
    assert_eq!(screen.get_cursor(), (3, 2));
    screen.end_window();
    assert_eq!(screen.get_size(), (8, 5));
    assert_eq!(screen.get_cursor(), (4, 3));
    screen.end_window();
    assert_eq!(screen.get_size(), (30, 12));
    assert_eq!(screen.get_cursor(), (6, 5));
}

#[test]
fn resize_refits_open_windows() {
    let mut screen = Screen::new(20, 10);
    screen.begin_window(2, 2, 8, 5);
    screen.begin_window(4, 1, 4, 4);
    screen.move_to(3, 3);
    // outer (2, 2, 8, 5) becomes (2, 2, 5, 2); inner (6, 3, 4, 4) becomes (6, 3, 1, 1)
    screen.resize(7, 4);
    assert_eq!(screen.get_size(), (1, 1));
    assert_eq!(screen.get_cursor(), (0, 0));
    screen.print("x");
    screen.end_window();
    assert_eq!(screen.get_size(), (5, 2));
    assert_eq!(screen.get_cursor(), (4, 1));
    screen.end_window();
    assert_eq!(screen.get_size(), (7, 4));
    assert_eq!(screen.get_cursor(), (6, 3));
    assert_eq!(characters(&screen), "                           x");
}

#[test]
fn printing_after_a_resize_with_a_window_stays_in_the_grid() {
    let mut screen = Screen::new(20, 10);
    screen.begin_window(10, 5, 10, 5);
    screen.move_to(9, 4);
    screen.resize(4, 3);
    screen.print("abcdefghijklmnopqrstuvwxyz");
    screen.end_window();
    assert_eq!(screen.get_size(), (4, 3));
    assert_eq!(characters(&screen).chars().count(), 12);
}
