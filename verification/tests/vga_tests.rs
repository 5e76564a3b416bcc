use vga_writer::vga::{
    color_value, default_char, default_color, new_color_code, new_display_char_color,
    unpack_color_code, unpack_display_char, Color, Writer, BOTTOM_ROW, GRID_CELLS, GRID_ROWS,
    VGA_BUF_HEIGHT, VGA_BUF_WIDTH,
};

const DEFAULT_ATTR: u8 = 0x0f;
const BLANK_CELL: u16 = 0x0f20;

fn all_colors() -> Vec<Color> {
    vec![
        Color::Black,
        Color::Blue,
        Color::Green,
        Color::Cyan,
        Color::Red,
        Color::Magenta,
        Color::Brown,
        Color::LightGray,
        Color::DarkGray,
        Color::LightBlue,
        Color::LightGreen,
        Color::LightCyan,
        Color::LightRed,
        Color::Pink,
        Color::Yellow,
        Color::White,
    ]
}

fn snapshot(writer: &Writer) -> Vec<u16> {
    let mut cells = Vec::new();
    for row in 0..GRID_ROWS {
        for col in 0..VGA_BUF_WIDTH {
            cells.push(writer.cell(row, col));
        }
    }
    cells
}

#[test]
fn color_values_count_up_from_zero() {
    let colors = all_colors();
    for (i, &color) in colors.iter().enumerate() {
        assert_eq!(color_value(color), i as u8);
    }
}

#[test]
fn color_code_packs_nibbles() {
    assert_eq!(new_color_code(Color::Black, Color::White), 0x0f);
    assert_eq!(new_color_code(Color::Red, Color::Yellow), 0x4e);
    assert_eq!(new_color_code(Color::White, Color::Black), 0xf0);
}

#[test]
fn color_code_round_trip_all_pairs() {
    let colors = all_colors();
    for &background in &colors {
        for &foreground in &colors {
            let code = new_color_code(background, foreground);
            assert_eq!(unpack_color_code(code), (background, foreground));
        }
    }
}

#[test]
fn display_char_round_trip_all_pairs() {
    for ascii_char in 0..=255u8 {
        for color_code in 0..=255u8 {
            let cell = new_display_char_color(ascii_char, color_code);
            assert_eq!(unpack_display_char(cell), (ascii_char, color_code));
        }
    }
}

#[test]
fn default_color_is_white_on_black() {
    assert_eq!(default_color(), new_color_code(Color::Black, Color::White));
    assert_eq!(default_color(), DEFAULT_ATTR);
}

#[test]
fn display_char_packs_attribute_above_character() {
    assert_eq!(new_display_char_color(b'A', 0x0f), 0x0f41);
    assert_eq!(new_display_char_color(b' ', 0x4e), 0x4e20);
    assert_eq!(default_char(b'A'), 0x0f41);
    assert_eq!(default_char(b' '), BLANK_CELL);
}

#[test]
fn fresh_writer_is_blank() {
    let writer = Writer::new();
    assert_eq!(writer.col(), 0);
    assert_eq!(writer.color_code(), DEFAULT_ATTR);
    for row in 0..GRID_ROWS {
        for col in 0..VGA_BUF_WIDTH {
            assert_eq!(writer.cell(row, col), BLANK_CELL);
        }
    }
}

#[test]
fn write_renders_on_the_bottom_row() {
    let mut writer = Writer::new();
    writer.write(b"AB");
    assert_eq!(writer.cell(BOTTOM_ROW, 0), 0x0f41);
    assert_eq!(writer.cell(BOTTOM_ROW, 1), 0x0f42);
    assert_eq!(writer.cell(BOTTOM_ROW, 2), BLANK_CELL);
    assert_eq!(writer.col(), 2);
}

#[test]
fn newline_scrolls_and_carries_text_up() {
    // The scenario "AB\nC": A and B land on the bottom row, the newline
    // shifts them up one row, then C starts the fresh bottom row.
    let mut writer = Writer::new();
    writer.write(b"AB\nC");
    assert_eq!(writer.cell(BOTTOM_ROW - 1, 0), 0x0f41);
    assert_eq!(writer.cell(BOTTOM_ROW - 1, 1), 0x0f42);
    assert_eq!(writer.cell(BOTTOM_ROW, 0), 0x0f43);
    assert_eq!(writer.cell(BOTTOM_ROW, 1), BLANK_CELL);
    assert_eq!(writer.col(), 1);
}

#[test]
fn empty_write_changes_nothing() {
    let mut writer = Writer::new();
    writer.write(b"some text\nmore");
    let before = snapshot(&writer);
    let col_before = writer.col();
    let color_before = writer.color_code();
    writer.write(b"");
    assert_eq!(snapshot(&writer), before);
    assert_eq!(writer.col(), col_before);
    assert_eq!(writer.color_code(), color_before);
}

#[test]
fn newlines_only_render_no_glyph() {
    let mut writer = Writer::new();
    let before = snapshot(&writer);
    writer.write(b"\n\n\n");
    let after = snapshot(&writer);
    for i in 0..GRID_CELLS {
        // Character bytes are untouched; only bottom-row attributes may
        // have been rewritten, and they carry the writer's attribute.
        assert_eq!(after[i] & 0x00ff, before[i] & 0x00ff);
    }
    for col in 0..VGA_BUF_WIDTH {
        assert_eq!(writer.cell(BOTTOM_ROW, col), BLANK_CELL);
    }
}

#[test]
fn scroll_preserves_row_order() {
    let mut writer = Writer::new();
    writer.write(b"first\nsecond\nthird, still on the bottom row");
    let before = snapshot(&writer);
    writer.write(b"\n");
    for row in 0..BOTTOM_ROW {
        for col in 0..VGA_BUF_WIDTH {
            assert_eq!(
                writer.cell(row, col),
                before[(row + 1) * VGA_BUF_WIDTH + col]
            );
        }
    }
    for col in 0..VGA_BUF_WIDTH {
        assert_eq!(writer.cell(BOTTOM_ROW, col), BLANK_CELL);
    }
    assert_eq!(writer.col(), 0);
}

#[test]
fn column_advances_by_byte_count() {
    let mut writer = Writer::new();
    writer.write(b"abc");
    let before = snapshot(&writer);
    let col_before = writer.col();
    writer.write(b"defg");
    assert_eq!(writer.col(), col_before + 4);
    let after = snapshot(&writer);
    let span = BOTTOM_ROW * VGA_BUF_WIDTH + col_before;
    for i in 0..GRID_CELLS {
        if i < span || i >= span + 4 {
            assert_eq!(after[i], before[i]);
        }
    }
}

#[test]
fn bytes_past_the_right_edge_are_dropped() {
    let mut writer = Writer::new();
    let msg = vec![b'X'; VGA_BUF_WIDTH + 1];
    writer.write(&msg);
    assert_eq!(writer.col(), VGA_BUF_WIDTH + 1);
    assert_eq!(writer.cell(BOTTOM_ROW, VGA_BUF_WIDTH - 1), 0x0f58);
    // The overflowing byte lands nowhere: every other row is untouched.
    for row in 0..BOTTOM_ROW {
        for col in 0..VGA_BUF_WIDTH {
            assert_eq!(writer.cell(row, col), BLANK_CELL);
        }
    }
    writer.write(b"\n");
    assert_eq!(writer.col(), 0);
}

#[test]
fn full_height_of_newlines_blanks_the_grid() {
    let mut writer = Writer::new();
    writer.write(b"some\nlines\nof\ntext across the grid");
    let newlines = vec![b'\n'; VGA_BUF_HEIGHT + 1];
    writer.write(&newlines);
    assert_eq!(writer.col(), 0);
    for row in 0..GRID_ROWS {
        for col in 0..VGA_BUF_WIDTH {
            assert_eq!(writer.cell(row, col), BLANK_CELL);
        }
    }
}

#[test]
fn unpack_examples() {
    assert_eq!(unpack_color_code(0x4e), (Color::Red, Color::Yellow));
    assert_eq!(unpack_display_char(0x0f41), (0x41, 0x0f));
}
