use rust_os::vga_buffers::{Color, ColorCode, Writer, BUFFER_HEIGHT, BUFFER_WIDTH};

fn fresh_writer() -> Writer {
    Writer::new(ColorCode::new(Color::Yellow, Color::Black))
}

#[test]
fn color_code_packs_nibbles() {
    assert_eq!(ColorCode::new(Color::Yellow, Color::Black).0, 0x0e);
    assert_eq!(ColorCode::new(Color::White, Color::Blue).0, 0x1f);
    assert_eq!(ColorCode::new(Color::Black, Color::White).0, 0xf0);
    assert_eq!(ColorCode::new(Color::Green, Color::Black).0, 0x02);
}

#[test]
fn fresh_writer_is_blank() {
    let w = fresh_writer();
    assert_eq!(w.column_position, 0);
    for r in 0..BUFFER_HEIGHT {
        for c in 0..BUFFER_WIDTH {
            let cell = w.buffer.read_cell(r, c);
            assert_eq!(cell.ascii_char, b' ');
            assert_eq!(cell.color_code.0, 0x0e);
        }
    }
}

#[test]
fn column_counts_printable_bytes() {
    for count in [0usize, 1, 5, 42, 79] {
        let mut w = fresh_writer();
        for _ in 0..count {
            w.write_byte(b'x');
        }
        assert_eq!(w.column_position, count);
    }
}

#[test]
fn bottom_row_round_trip() {
    let mut w = fresh_writer();
    let s = "Hello rust-os!";
    w.write_str(s);
    for (i, b) in s.bytes().enumerate() {
        let cell = w.buffer.read_cell(BUFFER_HEIGHT - 1, i);
        assert_eq!(cell.ascii_char, b);
        assert_eq!(cell.color_code, ColorCode::new(Color::Yellow, Color::Black));
    }
    assert_eq!(w.buffer.read_cell(BUFFER_HEIGHT - 1, s.len()).ascii_char, b' ');
}

#[test]
fn unprintable_bytes_become_sentinel() {
    let mut w = fresh_writer();
    w.write_str("\t");
    w.write_str("\u{1}");
    w.write_str("\u{e4}");
    assert_eq!(w.column_position, 4);
    for i in 0..4 {
        assert_eq!(w.buffer.read_cell(BUFFER_HEIGHT - 1, i).ascii_char, 0xfe);
    }
    let tail = w.buffer.read_cell(BUFFER_HEIGHT - 1, 4);
    assert_eq!(tail.ascii_char, b' ');
}

#[test]
fn newline_scrolls_line_up_and_blanks_bottom() {
    let mut w = fresh_writer();
    w.write_str("abc");
    w.new_line();
    for (i, b) in b"abc".iter().enumerate() {
        assert_eq!(w.buffer.read_cell(BUFFER_HEIGHT - 2, i).ascii_char, *b);
    }
    for c in 0..BUFFER_WIDTH {
        assert_eq!(w.buffer.read_cell(BUFFER_HEIGHT - 1, c).ascii_char, b' ');
    }
    assert_eq!(w.column_position, 0);
}

#[test]
fn scroll_shifts_every_row_up() {
    let mut w = fresh_writer();
    for i in 0..24u8 {
        w.write_byte(b'A' + i);
        w.write_byte(b'\n');
    }
    let mut before = Vec::new();
    for r in 0..BUFFER_HEIGHT {
        let mut row = Vec::new();
        for c in 0..BUFFER_WIDTH {
            row.push(w.buffer.read_cell(r, c));
        }
        before.push(row);
    }
    w.new_line();
    for r in 0..BUFFER_HEIGHT - 1 {
        for c in 0..BUFFER_WIDTH {
            assert_eq!(w.buffer.read_cell(r, c), before[r + 1][c]);
        }
    }
    for c in 0..BUFFER_WIDTH {
        assert_eq!(w.buffer.read_cell(BUFFER_HEIGHT - 1, c).ascii_char, b' ');
    }
}

#[test]
fn topmost_line_is_lost_after_one_more_scroll() {
    let mut w = fresh_writer();
    for i in 0..24u8 {
        w.write_byte(b'A' + i);
        w.write_byte(b'\n');
    }
    assert_eq!(w.buffer.read_cell(0, 0).ascii_char, b'A');
    w.write_byte(b'Y');
    w.write_byte(b'\n');
    assert_eq!(w.buffer.read_cell(0, 0).ascii_char, b'B');
    for r in 0..BUFFER_HEIGHT {
        assert_ne!(w.buffer.read_cell(r, 0).ascii_char, b'A');
    }
}

#[test]
fn full_row_wraps_before_placing() {
    let mut w = fresh_writer();
    for _ in 0..BUFFER_WIDTH {
        w.write_byte(b'x');
    }
    assert_eq!(w.column_position, BUFFER_WIDTH);
    assert_eq!(w.buffer.read_cell(BUFFER_HEIGHT - 1, BUFFER_WIDTH - 1).ascii_char, b'x');
    w.write_byte(b'y');
    assert_eq!(w.column_position, 1);
    assert_eq!(w.buffer.read_cell(BUFFER_HEIGHT - 1, 0).ascii_char, b'y');
    assert_eq!(w.buffer.read_cell(BUFFER_HEIGHT - 2, 0).ascii_char, b'x');
    assert_eq!(w.buffer.read_cell(BUFFER_HEIGHT - 2, BUFFER_WIDTH - 1).ascii_char, b'x');
}

#[test]
fn clear_row_blanks_only_that_row() {
    let mut w = fresh_writer();
    w.write_str("abc\ndef");
    assert_eq!(w.buffer.read_cell(BUFFER_HEIGHT - 2, 0).ascii_char, b'a');
    w.clear_row(BUFFER_HEIGHT - 2);
    for c in 0..BUFFER_WIDTH {
        assert_eq!(w.buffer.read_cell(BUFFER_HEIGHT - 2, c).ascii_char, b' ');
    }
    assert_eq!(w.buffer.read_cell(BUFFER_HEIGHT - 1, 0).ascii_char, b'd');
    assert_eq!(w.buffer.read_cell(BUFFER_HEIGHT - 1, 2).ascii_char, b'f');
    assert_eq!(w.column_position, 3);
}

#[test]
fn test_println_ouput() {
    let s = "Some test string that files on a single line";
    let mut w = fresh_writer();
    w.write_str(s);
    w.write_byte(b'\n');
    for (i, c) in s.chars().enumerate() {
        let screen_char = w.buffer.read_cell(BUFFER_HEIGHT - 2, i);
        assert_eq!(char::from(screen_char.ascii_char), c);
    }
}
