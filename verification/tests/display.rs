use swag_kernel::serial::{Green, Red};
use swag_kernel::vga_buffer::{Color, ColorCode};

#[test]
fn green_renders_with_ansi_codes() {
    assert_eq!(Green("[ok]").render(), "\x1B[32m[ok]\x1B[0m");
}

#[test]
fn red_renders_with_ansi_codes() {
    assert_eq!(Red("[failed]").render(), "\x1B[31m[failed]\x1B[0m");
}

#[test]
fn color_code_packs_background_and_text() {
    // white on black: the normal print color
    assert_eq!(ColorCode::new(Color::White, Color::Black).0, 15);
    // red on white: the error print color
    assert_eq!(ColorCode::new(Color::Red, Color::White).0, 0xF4);
    assert_eq!(ColorCode::new(Color::Black, Color::Black).0, 0);
    assert_eq!(ColorCode::new(Color::White, Color::White).0, 0xFF);
}

use swag_kernel::vga_buffer::{Writer, BUFFER_HEIGHT, BUFFER_WIDTH};

#[test]
fn writer_starts_blank() {
    let w = Writer::new();
    assert_eq!(w.column_position, 0);
    assert_eq!(w.buffer.len(), BUFFER_HEIGHT);
    for row in &w.buffer {
        assert_eq!(row.len(), BUFFER_WIDTH);
        for cell in row {
            assert_eq!(cell.ascii_character, b' ');
            assert_eq!(cell.color_code.0, 15);
        }
    }
}

#[test]
fn written_line_appears_on_the_screen() {
    let mut w = Writer::new();
    let s = b"Some test string that fits on a single line";
    w.write_string(s);
    w.write_byte(b'\n');
    for (i, &byte) in s.iter().enumerate() {
        assert_eq!(w.buffer[BUFFER_HEIGHT - 2][i].ascii_character, byte);
    }
    assert_eq!(w.column_position, 0);
}

#[test]
fn unprintable_bytes_become_the_replacement_character() {
    let mut w = Writer::new();
    w.write_string(&[0xc3, 0xa9, b'\n']);
    assert_eq!(w.buffer[BUFFER_HEIGHT - 2][0].ascii_character, 0xfe);
    assert_eq!(w.buffer[BUFFER_HEIGHT - 2][1].ascii_character, 0xfe);
}

#[test]
fn long_lines_wrap_onto_a_fresh_line() {
    let mut w = Writer::new();
    let line = vec![b'x'; BUFFER_WIDTH + 5];
    w.write_string(&line);
    assert_eq!(w.column_position, 5);
    for c in 0..BUFFER_WIDTH {
        assert_eq!(w.buffer[BUFFER_HEIGHT - 2][c].ascii_character, b'x');
    }
    for c in 0..5 {
        assert_eq!(w.buffer[BUFFER_HEIGHT - 1][c].ascii_character, b'x');
    }
    assert_eq!(w.buffer[BUFFER_HEIGHT - 1][5].ascii_character, b' ');
}

#[test]
fn new_line_scrolls_rows_upward() {
    let mut w = Writer::new();
    w.write_string(b"bottom");
    w.new_line();
    for (i, &byte) in b"bottom".iter().enumerate() {
        assert_eq!(w.buffer[BUFFER_HEIGHT - 2][i].ascii_character, byte);
    }
    for c in 0..BUFFER_WIDTH {
        assert_eq!(w.buffer[BUFFER_HEIGHT - 1][c].ascii_character, b' ');
    }
}

#[test]
fn clear_row_blanks_exactly_that_row() {
    let mut w = Writer::new();
    w.write_string(b"abc\ndef");
    w.clear_row(BUFFER_HEIGHT - 2);
    for c in 0..BUFFER_WIDTH {
        assert_eq!(w.buffer[BUFFER_HEIGHT - 2][c].ascii_character, b' ');
    }
    assert_eq!(w.buffer[BUFFER_HEIGHT - 1][0].ascii_character, b'd');
}
