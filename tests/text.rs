use kernel::graphics::{ascii_to_index, Font, TextBuffer};
use kernel::stdio::InputMode;

fn row(tb: &TextBuffer, r: usize) -> String {
    let n = tb.line_nchars as usize;
    tb.chars[r * n..(r + 1) * n].iter().collect()
}

#[test]
fn new_buffer_fills_the_screen_with_blanks() {
    let tb = TextBuffer::new(Font::SimSun, 640, 480);
    assert_eq!(tb.line_nchars, 80);
    assert_eq!(tb.max_lines, 30);
    assert_eq!(tb.chars.len(), 2400);
    assert!(tb.chars.iter().all(|c| *c == ' '));
    assert_eq!(tb.cursor, (0, 0));
    assert_eq!(tb.input_mode, InputMode::Insert);
}

#[test]
fn text_wraps_before_the_last_column() {
    let mut tb = TextBuffer::new(Font::SimHei, 32, 48);
    for c in "abcdef".chars() {
        tb.putc(c);
    }
    assert_eq!(row(&tb, 0), "abc ");
    assert_eq!(row(&tb, 1), "def ");
    assert_eq!(tb.cursor, (1, 3));
}

#[test]
fn newline_at_the_bottom_scrolls() {
    let mut tb = TextBuffer::new(Font::SimSun, 32, 32);
    tb.putc('a');
    tb.putc('\n');
    tb.putc('b');
    tb.putc('\n');
    assert_eq!(row(&tb, 0), "b   ");
    assert_eq!(row(&tb, 1), "    ");
    assert_eq!(tb.cursor, (1, 0));
}

#[test]
fn backspace_tab_and_escape() {
    let mut tb = TextBuffer::new(Font::SimSun, 80, 32);
    tb.putc('x');
    tb.putc('y');
    tb.putc('\x08');
    assert_eq!(tb.cursor, (0, 1));
    assert_eq!(row(&tb, 0), "x         ");
    tb.putc('\t');
    assert_eq!(tb.cursor, (0, 5));
    tb.putc('\x1b');
    tb.putc('[');
    tb.putc('A');
    assert_eq!(tb.input_mode, InputMode::Insert);
    assert_eq!(tb.cursor, (0, 5));
    tb.putc('\x7f');
    assert_eq!(tb.cursor, (0, 4));
}

#[test]
fn glyph_indices() {
    assert_eq!(ascii_to_index(' '), 0);
    assert_eq!(ascii_to_index('A'), 33);
    assert_eq!(ascii_to_index('~'), 94);
    assert_eq!(ascii_to_index('\n'), 0);
}
