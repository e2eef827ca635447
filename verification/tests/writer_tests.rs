use vga_text::color::{Color, ColorCode};
use vga_text::screen::{ScreenChar, BUFFER_HEIGHT, BUFFER_WIDTH, LINE_FEED, SPACE, SUBSTITUTE_BYTE};
use vga_text::writer::Writer;

fn default_code() -> ColorCode {
    ColorCode::new(Color::Yellow, Color::Black)
}

fn assert_blank_row(w: &Writer, row: usize, code: ColorCode) {
    for col in 0..BUFFER_WIDTH {
        let cell = w.char_at(row, col);
        assert_eq!(cell.ascii_character, SPACE);
        assert_eq!(cell.color_code, code);
    }
}

#[test]
fn color_code_packs_nibbles() {
    assert_eq!(ColorCode::new(Color::Yellow, Color::Black).0, 0x0e);
    assert_eq!(ColorCode::new(Color::White, Color::Blue).0, 0x1f);
    assert_eq!(ColorCode::new(Color::Black, Color::White).0, 0xf0);
    assert_eq!(ColorCode::new(Color::LightCyan, Color::Red).0, 0x4b);
}

#[test]
fn fresh_writer_is_blank() {
    let w = Writer::new();
    assert_eq!(w.column_position(), 0);
    assert_eq!(w.color_code(), default_code());
    for row in 0..BUFFER_HEIGHT {
        assert_blank_row(&w, row, default_code());
    }
}

#[test]
fn translation_table_exhaustive() {
    for b in 0..=255u8 {
        let mut w = Writer::new();
        w.write_bytes(&[b]);
        if b == LINE_FEED {
            // a line feed occupies no cell; it scrolls the blank grid
            assert_eq!(w.column_position(), 0);
            assert_blank_row(&w, BUFFER_HEIGHT - 1, default_code());
        } else {
            assert_eq!(w.column_position(), 1);
            let cell = w.char_at(BUFFER_HEIGHT - 1, 0);
            let expected = if (0x20..=0x7e).contains(&b) { b } else { SUBSTITUTE_BYTE };
            assert_eq!(cell.ascii_character, expected);
            assert_eq!(cell.color_code, default_code());
        }
    }
}

#[test]
fn control_byte_renders_substitute_not_skip() {
    let mut w = Writer::new();
    w.write_bytes(&[b'a', 0x01, b'b']);
    assert_eq!(w.char_at(BUFFER_HEIGHT - 1, 0).ascii_character, b'a');
    assert_eq!(w.char_at(BUFFER_HEIGHT - 1, 1).ascii_character, SUBSTITUTE_BYTE);
    assert_eq!(w.char_at(BUFFER_HEIGHT - 1, 2).ascii_character, b'b');
    assert_eq!(w.column_position(), 3);
}

#[test]
fn eighty_bytes_fill_row_without_wrap() {
    let mut w = Writer::new();
    let row = vec![b'A'; BUFFER_WIDTH];
    w.write_bytes(&row);
    assert_eq!(w.column_position(), BUFFER_WIDTH);
    for col in 0..BUFFER_WIDTH {
        assert_eq!(w.char_at(BUFFER_HEIGHT - 1, col).ascii_character, b'A');
    }
    // no scroll happened: every other row is still blank
    for r in 0..BUFFER_HEIGHT - 1 {
        assert_blank_row(&w, r, default_code());
    }
}

#[test]
fn eighty_first_byte_scrolls_once_then_lands_at_column_zero() {
    let mut w = Writer::new();
    let row = vec![b'A'; BUFFER_WIDTH];
    w.write_bytes(&row);
    w.write_byte(b'B');
    assert_eq!(w.column_position(), 1);
    // exactly one scroll: the filled row moved up one place
    for col in 0..BUFFER_WIDTH {
        assert_eq!(w.char_at(BUFFER_HEIGHT - 2, col).ascii_character, b'A');
    }
    assert_eq!(w.char_at(BUFFER_HEIGHT - 1, 0).ascii_character, b'B');
    for col in 1..BUFFER_WIDTH {
        assert_eq!(w.char_at(BUFFER_HEIGHT - 1, col).ascii_character, SPACE);
    }
    for r in 0..BUFFER_HEIGHT - 2 {
        assert_blank_row(&w, r, default_code());
    }
}

#[test]
fn line_feeds_scroll_and_preserve_row_order() {
    let mut w = Writer::new();
    w.write_string("one\ntwo\nthree");
    // bottom three rows now read one, two, three from the top down
    let check_word = |w: &Writer, row: usize, word: &str| {
        for (i, b) in word.bytes().enumerate() {
            assert_eq!(w.char_at(row, i).ascii_character, b);
        }
        for col in word.len()..BUFFER_WIDTH {
            assert_eq!(w.char_at(row, col).ascii_character, SPACE);
        }
    };
    check_word(&w, BUFFER_HEIGHT - 3, "one");
    check_word(&w, BUFFER_HEIGHT - 2, "two");
    check_word(&w, BUFFER_HEIGHT - 1, "three");

    // two more line feeds: everything moves up two rows in order,
    // and the bottom two rows are blank
    w.write_string("\n\n");
    assert_eq!(w.column_position(), 0);
    check_word(&w, BUFFER_HEIGHT - 5, "one");
    check_word(&w, BUFFER_HEIGHT - 4, "two");
    check_word(&w, BUFFER_HEIGHT - 3, "three");
    assert_blank_row(&w, BUFFER_HEIGHT - 2, default_code());
    assert_blank_row(&w, BUFFER_HEIGHT - 1, default_code());
}

#[test]
fn newline_consumes_no_column() {
    let mut w = Writer::new();
    w.write_string("ab\n");
    assert_eq!(w.column_position(), 0);
    w.write_byte(b'c');
    assert_eq!(w.char_at(BUFFER_HEIGHT - 1, 0).ascii_character, b'c');
}

#[test]
fn cells_keep_color_active_when_written() {
    let mut w = Writer::new();
    w.write_string("AB");
    w.set_color(Color::Red, Color::White);
    w.write_string("CD");
    let first = ColorCode::new(Color::Yellow, Color::Black);
    let second = ColorCode::new(Color::Red, Color::White);
    assert_eq!(w.char_at(BUFFER_HEIGHT - 1, 0), ScreenChar { ascii_character: b'A', color_code: first });
    assert_eq!(w.char_at(BUFFER_HEIGHT - 1, 1), ScreenChar { ascii_character: b'B', color_code: first });
    assert_eq!(w.char_at(BUFFER_HEIGHT - 1, 2), ScreenChar { ascii_character: b'C', color_code: second });
    assert_eq!(w.char_at(BUFFER_HEIGHT - 1, 3), ScreenChar { ascii_character: b'D', color_code: second });
    assert_eq!(w.color_code(), second);
}

#[test]
fn hello_with_formatted_numbers() {
    let mut w = Writer::new();
    w.write_byte(b'H');
    w.write_string("ello! ");
    let formatted = format!("The numbers are {} and {}", 42, 1.0 / 3.0);
    w.write_string(&formatted);

    let expected = format!("Hello! {}", formatted);
    assert!(expected.starts_with("Hello! The numbers are 42 and 0.333"));
    assert_eq!(w.column_position(), expected.len());
    for (i, b) in expected.bytes().enumerate() {
        let cell = w.char_at(BUFFER_HEIGHT - 1, i);
        assert_eq!(cell.ascii_character, b);
        assert_eq!(cell.color_code, default_code());
    }
    for col in expected.len()..BUFFER_WIDTH {
        assert_eq!(w.char_at(BUFFER_HEIGHT - 1, col).ascii_character, SPACE);
    }
}

#[test]
fn multibyte_text_renders_one_glyph_per_byte() {
    let mut w = Writer::new();
    // a two-byte encoded character: both bytes are outside the printable
    // range, so two substitution glyphs appear
    w.write_string("\u{e9}!");
    assert_eq!(w.char_at(BUFFER_HEIGHT - 1, 0).ascii_character, SUBSTITUTE_BYTE);
    assert_eq!(w.char_at(BUFFER_HEIGHT - 1, 1).ascii_character, SUBSTITUTE_BYTE);
    assert_eq!(w.char_at(BUFFER_HEIGHT - 1, 2).ascii_character, b'!');
    assert_eq!(w.column_position(), 3);
}
