use term_core::attr::{Attributes, Color};
use term_core::event::TerminalEvent;
use term_core::grid::Terminal;
use term_core::interp::Parser;

fn attrs() -> Attributes {
    Attributes::default()
}

#[test]
fn fresh_grid_renders_spaces() {
    let t = Terminal::new(4, 2);
    assert_eq!(t.render_to_string(), "    \n    \n");
    assert_eq!(t.cursor.row, 0);
    assert_eq!(t.cursor.col, 0);
}

#[test]
fn print_advances_and_stores_cell() {
    let mut t = Terminal::new(4, 2);
    t.print('A', Attributes { foreground: Color::Red, ..attrs() });
    assert_eq!(t.cursor.row, 0);
    assert_eq!(t.cursor.col, 1);
    assert_eq!(t.grid[0].character, 'A');
    assert_eq!(t.grid[0].attrs.foreground, Color::Red);
    assert_eq!(t.render_to_string(), "A   \n    \n");
}

#[test]
fn wrap_at_right_edge_moves_to_next_row() {
    let mut t = Terminal::new(3, 2);
    t.print('a', attrs());
    t.print('b', attrs());
    t.print('c', attrs());
    assert_eq!(t.cursor.row, 1);
    assert_eq!(t.cursor.col, 0);
}

#[test]
fn wrap_on_last_row_pins_to_bottom() {
    let mut t = Terminal::new(3, 2);
    for ch in ['a', 'b', 'c', 'd', 'e', 'f'] {
        t.print(ch, attrs());
    }
    // The cursor wrapped off the bottom and is pinned at the last row.
    assert_eq!(t.cursor.row, 1);
    assert_eq!(t.cursor.col, 0);
    // Printing again overwrites the bottom line in place.
    t.print('z', attrs());
    assert_eq!(t.render_to_string(), "abc\nzef\n");
}

#[test]
fn scenario_ten_by_three_wrapping() {
    let mut t = Terminal::new(10, 3);
    let mut ch = 'A';
    for _ in 0..25 {
        t.print(ch, attrs());
        ch = char::from_u32(ch as u32 + 1).unwrap();
    }
    assert_eq!(t.render_to_string(), "ABCDEFGHIJ\nKLMNOPQRST\nUVWXY     \n");
    assert_eq!(t.cursor.row, 2);
    assert_eq!(t.cursor.col, 5);
}

#[test]
fn set_cursor_position_is_one_based() {
    let mut t = Terminal::new(20, 5);
    t.set_cursor_position(3, 5);
    assert_eq!(t.cursor.row, 2);
    assert_eq!(t.cursor.col, 4);
}

#[test]
fn set_cursor_zero_acts_as_one() {
    let mut a = Terminal::new(20, 5);
    let mut b = Terminal::new(20, 5);
    a.set_cursor_position(0, 0);
    b.set_cursor_position(1, 1);
    assert_eq!(a.cursor, b.cursor);
    assert_eq!(a.cursor.row, 0);
    assert_eq!(a.cursor.col, 0);
}

#[test]
fn set_cursor_clamps_to_bounds() {
    let mut t = Terminal::new(20, 5);
    t.set_cursor_position(100, 100);
    assert_eq!(t.cursor.row, 4);
    assert_eq!(t.cursor.col, 19);
}

#[test]
fn relative_moves_saturate_and_clamp() {
    let mut t = Terminal::new(20, 5);
    t.set_cursor_position(2, 5);
    t.cursor_up(10);
    assert_eq!(t.cursor.row, 0);
    t.cursor_back(10);
    assert_eq!(t.cursor.col, 0);
    t.cursor_down(2);
    t.cursor_forward(5);
    assert_eq!(t.cursor.row, 2);
    assert_eq!(t.cursor.col, 5);
    t.cursor_down(100);
    assert_eq!(t.cursor.row, 4);
    t.cursor_forward(100);
    assert_eq!(t.cursor.col, 19);
}

#[test]
fn scenario_debug_render_brackets_cursor() {
    let mut t = Terminal::new(20, 5);
    t.set_cursor_position(3, 5);
    t.print('X', attrs());
    let blank = " ".repeat(20);
    let row2 = format!("    X[ ]{}", " ".repeat(14));
    let want = format!(
        "{b}\n{b}\n{r}\n{b}\n{b}\nCursor: row=2 col=5\n",
        b = blank,
        r = row2
    );
    assert_eq!(t.debug_render(), want);
}

#[test]
fn debug_render_reports_coordinates() {
    let mut t = Terminal::new(2, 2);
    t.print('h', attrs());
    assert_eq!(t.debug_render(), "h[ ]\n  \nCursor: row=0 col=1\n");
}

#[test]
fn debug_render_coordinates_with_more_digits() {
    let mut t = Terminal::new(3, 15);
    t.set_cursor_position(13, 2);
    let render = t.debug_render();
    assert!(render.ends_with("Cursor: row=12 col=1\n"));
}

#[test]
fn interpreter_events_drive_the_grid() {
    let mut p = Parser::new();
    p.feed(b"hi\x1b[1mB\x1b[5;1Hx");
    let mut t = Terminal::new(5, 5);
    for e in &p.events {
        match e {
            TerminalEvent::Print { ch, attrs } => t.print(*ch, *attrs),
            TerminalEvent::CursorPosition { row, col } => t.set_cursor_position(*row, *col),
            TerminalEvent::CursorUp(n) => t.cursor_up(*n),
            TerminalEvent::CursorDown(n) => t.cursor_down(*n),
            TerminalEvent::CursorForward(n) => t.cursor_forward(*n),
            TerminalEvent::CursorBack(n) => t.cursor_back(*n),
            _ => {}
        }
    }
    assert_eq!(t.render_to_string(), "hiB  \n     \n     \n     \nx    \n");
    assert_eq!(t.grid[2].attrs.bold, true);
    assert_eq!(t.grid[0].attrs.bold, false);
}
