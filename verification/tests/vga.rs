use kernel_mm::output::vga::{
    Color, ColorCode, ScreenChar, Writer, BUFFER_CELLS, BUFFER_HEIGHT, BUFFER_WIDTH,
};

#[test]
fn color_code_packs_background_high() {
    assert_eq!(ColorCode::new(Color::White, Color::Black).0, 0x0f);
    assert_eq!(ColorCode::new(Color::Black, Color::White).0, 0xf0);
    assert_eq!(ColorCode::new(Color::Yellow, Color::Blue).0, 0x1e);
}

#[test]
fn screen_char_holds_its_fields() {
    let c = ScreenChar::new(b'x', ColorCode::new(Color::Green, Color::Black));
    assert_eq!(c.character, b'x');
    assert_eq!(c.color.0, 0x02);
}

#[test]
fn fresh_writer_has_blank_screen() {
    let w = Writer::new();
    assert_eq!(w.row, 0);
    assert_eq!(w.col, 0);
    assert_eq!(w.color.0, 0x0f);
    assert_eq!(w.buff.chars.len(), BUFFER_CELLS);
    for cell in &w.buff.chars {
        assert_eq!(cell.character, 0);
    }
}

#[test]
fn write_bytes_fills_cells_in_order() {
    let mut w = Writer::new();
    w.write_bytes(b"Hi");
    assert_eq!(w.buff.chars[0].character, b'H');
    assert_eq!(w.buff.chars[1].character, b'i');
    assert_eq!(w.col, 2);
    assert_eq!(w.row, 0);
}

#[test]
fn newline_moves_to_next_row() {
    let mut w = Writer::new();
    w.write_bytes(b"a\nb");
    assert_eq!(w.buff.chars[0].character, b'a');
    assert_eq!(w.buff.chars[BUFFER_WIDTH].character, b'b');
    assert_eq!(w.row, 1);
    assert_eq!(w.col, 1);
}

#[test]
fn long_line_wraps_at_the_right_edge() {
    let mut w = Writer::new();
    for _ in 0..(BUFFER_WIDTH + 3) {
        w.write_byte(b'x');
    }
    assert_eq!(w.row, 1);
    assert_eq!(w.col, 3);
    assert_eq!(w.buff.chars[BUFFER_WIDTH - 1].character, b'x');
    assert_eq!(w.buff.chars[BUFFER_WIDTH + 2].character, b'x');
}

#[test]
fn unprintable_bytes_show_replacement_character() {
    let mut w = Writer::new();
    w.write_bytes(&[0x19, 0x7f, b'k']);
    assert_eq!(w.buff.chars[0].character, 0xfe);
    assert_eq!(w.buff.chars[1].character, 0xfe);
    assert_eq!(w.buff.chars[2].character, b'k');
}

#[test]
fn bottom_line_scrolls_screen_up() {
    let mut w = Writer::new();
    // land on the bottom row, write a marker, then force one more line
    for i in 0..BUFFER_HEIGHT {
        w.write_byte(b'0' + (i % 10) as u8);
        w.write_byte(b'\n');
    }
    // after 25 newlines the screen has scrolled once: row 0 shows line 1
    assert_eq!(w.row, BUFFER_HEIGHT - 1);
    assert_eq!(w.buff.chars[0].character, b'1');
    // the bottom row is blank again
    for c in 0..BUFFER_WIDTH {
        assert_eq!(w.buff.chars[(BUFFER_HEIGHT - 1) * BUFFER_WIDTH + c].character, 0);
    }
}

#[test]
fn scroll_down_shifts_rows_and_keeps_cursor() {
    let mut w = Writer::new();
    w.write_bytes(b"top\nsecond");
    w.scroll_down();
    assert_eq!(w.buff.chars[0].character, b's');
    assert_eq!(w.buff.chars[1].character, b'e');
    assert_eq!(w.row, 1);
    assert_eq!(w.col, 6);
}

#[test]
fn clear_row_blanks_only_that_row() {
    let mut w = Writer::new();
    w.write_bytes(b"aa\nbb");
    let color = w.color;
    w.buff.clear_row(0, color);
    assert_eq!(w.buff.chars[0].character, 0);
    assert_eq!(w.buff.chars[BUFFER_WIDTH].character, b'b');
}

#[test]
fn clear_screen_blanks_everything() {
    let mut w = Writer::new();
    w.write_bytes(b"text\nmore");
    let color = ColorCode::new(Color::LightGray, Color::Blue);
    w.buff.clear_screen(color);
    for cell in &w.buff.chars {
        assert_eq!(cell.character, 0);
        assert_eq!(cell.color.0, 0x17);
    }
}
