//! The display writer: cell encoding, cursor policy and scrolling.
//!
//! A display cell is one `u16`: the low byte is the character code, the
//! high byte is the colour attribute `(background << 4) | foreground`.
//! The grid is a flat sequence of cells addressed as `row * WIDTH + col`.
//! On real hardware the cells live at a fixed physical address; here the
//! writer owns an in-memory grid with the same layout, so every access
//! is bounds-proved and the rendering logic is verified against it.

use vstd::prelude::*;

verus! {

/// Number of bits the background nibble is shifted by inside an attribute.
pub const FOREGROUND_SIZE: u8 = 4;

/// Number of bits the attribute byte is shifted by inside a display cell.
pub const ASCII_CHAR_SIZE: u16 = 8;

/// Number of columns in the character grid.
pub const VGA_BUF_WIDTH: usize = 80;

/// Nominal height of the character grid.
pub const VGA_BUF_HEIGHT: usize = 24;

/// The row every glyph is rendered on: the driver always writes into the
/// row at offset `VGA_BUF_HEIGHT * VGA_BUF_WIDTH`, one past the nominal
/// height, so the grid in use spans the rows `0 ..= VGA_BUF_HEIGHT`.
pub const BOTTOM_ROW: usize = VGA_BUF_HEIGHT;

/// Number of rows the driver addresses (the bottom row included).
pub const GRID_ROWS: usize = VGA_BUF_HEIGHT + 1;

/// Total number of cells in the addressed grid.
pub const GRID_CELLS: usize = GRID_ROWS * VGA_BUF_WIDTH;

/// The one control byte the writer recognises: line feed.
pub const NEWLINE: u8 = 0x0a;

/// The character code used to clear a row: a blank space.
pub const SPACE: u8 = 0x20;

/// The sixteen colours of the hardware palette, valued 0 through 15 in
/// declaration order.
#[derive(Clone, Copy, Debug, PartialEq, Eq, Structural)]
pub enum Color {
    Black,
    Blue,
    Green,
    Cyan,
    Red,
    Magenta,
    Brown,
    LightGray,
    DarkGray,
    LightBlue,
    LightGreen,
    LightCyan,
    LightRed,
    Pink,
    Yellow,
    White,
}

/// The palette value of a colour: its position in the declaration order.
pub open spec fn spec_color_value(color: Color) -> u8 {
    match color {
        Color::Black => 0,
        Color::Blue => 1,
        Color::Green => 2,
        Color::Cyan => 3,
        Color::Red => 4,
        Color::Magenta => 5,
        Color::Brown => 6,
        Color::LightGray => 7,
        Color::DarkGray => 8,
        Color::LightBlue => 9,
        Color::LightGreen => 10,
        Color::LightCyan => 11,
        Color::LightRed => 12,
        Color::Pink => 13,
        Color::Yellow => 14,
        Color::White => 15,
    }
}

/// The colour with a given palette value; values are nibbles, 0 through 15.
pub open spec fn spec_color_of_value(value: u8) -> Color {
    if value == 0 {
        Color::Black
    } else if value == 1 {
        Color::Blue
    } else if value == 2 {
        Color::Green
    } else if value == 3 {
        Color::Cyan
    } else if value == 4 {
        Color::Red
    } else if value == 5 {
        Color::Magenta
    } else if value == 6 {
        Color::Brown
    } else if value == 7 {
        Color::LightGray
    } else if value == 8 {
        Color::DarkGray
    } else if value == 9 {
        Color::LightBlue
    } else if value == 10 {
        Color::LightGreen
    } else if value == 11 {
        Color::LightCyan
    } else if value == 12 {
        Color::LightRed
    } else if value == 13 {
        Color::Pink
    } else if value == 14 {
        Color::Yellow
    } else {
        Color::White
    }
}

/// The palette value of a colour.
#[verifier::when_used_as_spec(spec_color_value)]
pub fn color_value(color: Color) -> (value: u8)
    ensures
        value == spec_color_value(color),
{
    match color {
        Color::Black => 0,
        Color::Blue => 1,
        Color::Green => 2,
        Color::Cyan => 3,
        Color::Red => 4,
        Color::Magenta => 5,
        Color::Brown => 6,
        Color::LightGray => 7,
        Color::DarkGray => 8,
        Color::LightBlue => 9,
        Color::LightGreen => 10,
        Color::LightCyan => 11,
        Color::LightRed => 12,
        Color::Pink => 13,
        Color::Yellow => 14,
        Color::White => 15,
    }
}

/// The colour with a given palette value.
pub fn color_of_value(value: u8) -> (color: Color)
    requires
        value < 16,
    ensures
        color == spec_color_of_value(value),
        spec_color_value(color) == value,
{
    if value == 0 {
        Color::Black
    } else if value == 1 {
        Color::Blue
    } else if value == 2 {
        Color::Green
    } else if value == 3 {
        Color::Cyan
    } else if value == 4 {
        Color::Red
    } else if value == 5 {
        Color::Magenta
    } else if value == 6 {
        Color::Brown
    } else if value == 7 {
        Color::LightGray
    } else if value == 8 {
        Color::DarkGray
    } else if value == 9 {
        Color::LightBlue
    } else if value == 10 {
        Color::LightGreen
    } else if value == 11 {
        Color::LightCyan
    } else if value == 12 {
        Color::LightRed
    } else if value == 13 {
        Color::Pink
    } else if value == 14 {
        Color::Yellow
    } else {
        Color::White
    }
}

/// An attribute byte: the background nibble above the foreground nibble.
pub open spec fn spec_color_code(background: Color, foreground: Color) -> u8 {
    (spec_color_value(background) << FOREGROUND_SIZE) | spec_color_value(foreground)
}

/// The background nibble of an attribute byte.
pub open spec fn spec_background(code: u8) -> u8 {
    code >> FOREGROUND_SIZE
}

/// The foreground nibble of an attribute byte.
pub open spec fn spec_foreground(code: u8) -> u8 {
    code & 0x0f
}

/// Packs a background and a foreground colour into one attribute byte.
pub fn new_color_code(background: Color, foreground: Color) -> (code: u8)
    ensures
        code == spec_color_code(background, foreground),
{
    (color_value(background) << FOREGROUND_SIZE) | color_value(foreground)
}

/// The attribute every writer starts with: white text on black.
pub fn default_color() -> (code: u8)
    ensures
        code == spec_color_code(Color::Black, Color::White),
{
    new_color_code(Color::Black, Color::White)
}

/// Splits an attribute byte back into its two colours.
pub fn unpack_color_code(code: u8) -> (colors: (Color, Color))
    ensures
        colors.0 == spec_color_of_value(spec_background(code)),
        colors.1 == spec_color_of_value(spec_foreground(code)),
        spec_color_value(colors.0) == spec_background(code),
        spec_color_value(colors.1) == spec_foreground(code),
{
    proof {
        assert(code >> FOREGROUND_SIZE < 16 && code & 0x0f < 16) by (bit_vector);
    }
    let background = color_of_value(code >> FOREGROUND_SIZE);
    let foreground = color_of_value(code & 0x0f);
    (background, foreground)
}

/// Packing an attribute and taking it apart returns the original colours.
pub proof fn lemma_color_code_round_trip(background: Color, foreground: Color)
    ensures
        spec_background(spec_color_code(background, foreground)) == spec_color_value(background),
        spec_foreground(spec_color_code(background, foreground)) == spec_color_value(foreground),
        spec_color_of_value(spec_background(spec_color_code(background, foreground))) == background,
        spec_color_of_value(spec_foreground(spec_color_code(background, foreground))) == foreground,
{
    let b = spec_color_value(background);
    let f = spec_color_value(foreground);
    assert(((b << FOREGROUND_SIZE) | f) >> FOREGROUND_SIZE == b && ((b << FOREGROUND_SIZE) | f)
        & 0x0f == f) by (bit_vector)
        requires
            b < 16 && f < 16,
    ;
}

/// A display cell: the attribute byte above the character byte.
pub open spec fn spec_display_char(ascii_char: u8, color_code: u8) -> u16 {
    ((color_code as u16) << ASCII_CHAR_SIZE) | (ascii_char as u16)
}

/// The character byte of a display cell.
pub open spec fn spec_cell_char(cell: u16) -> u8 {
    (cell & 0x00ff) as u8
}

/// The attribute byte of a display cell.
pub open spec fn spec_cell_color(cell: u16) -> u8 {
    (cell >> ASCII_CHAR_SIZE) as u8
}

/// Packs a character and an attribute byte into one display cell.
pub fn new_display_char_color(ascii_char: u8, color_code: u8) -> (cell: u16)
    ensures
        cell == spec_display_char(ascii_char, color_code),
{
    ((color_code as u16) << ASCII_CHAR_SIZE) | (ascii_char as u16)
}

/// Packs a character with the default attribute.
pub fn default_char(ascii_char: u8) -> (cell: u16)
    ensures
        cell == spec_display_char(ascii_char, spec_color_code(Color::Black, Color::White)),
{
    new_display_char_color(ascii_char, default_color())
}

/// Splits a display cell back into its character and attribute bytes.
pub fn unpack_display_char(cell: u16) -> (parts: (u8, u8))
    ensures
        parts.0 == spec_cell_char(cell),
        parts.1 == spec_cell_color(cell),
{
    ((cell & 0x00ff) as u8, (cell >> ASCII_CHAR_SIZE) as u8)
}

/// Packing a cell and taking it apart returns the original bytes.
pub proof fn lemma_display_char_round_trip(ascii_char: u8, color_code: u8)
    ensures
        spec_cell_char(spec_display_char(ascii_char, color_code)) == ascii_char,
        spec_cell_color(spec_display_char(ascii_char, color_code)) == color_code,
{
    assert((((color_code as u16) << ASCII_CHAR_SIZE) | (ascii_char as u16)) & 0x00ff
        == ascii_char as u16 && (((color_code as u16) << ASCII_CHAR_SIZE) | (ascii_char as u16))
        >> ASCII_CHAR_SIZE == color_code as u16) by (bit_vector);
}

/// A blank cell: a space rendered with the given attribute.
pub open spec fn spec_blank_cell(color_code: u8) -> u16 {
    spec_display_char(SPACE, color_code)
}

/// The flat index of a grid position.
pub open spec fn spec_cell_index(row: int, col: int) -> int {
    row * VGA_BUF_WIDTH + col
}

/// The grid after one scroll: every cell takes the value one row below
/// it, and the cells of the bottom row become blanks with the given
/// attribute.
pub open spec fn spec_scrolled(grid: Seq<u16>, color_code: u8) -> Seq<u16> {
    Seq::new(
        grid.len(),
        |i: int|
            if i + VGA_BUF_WIDTH < grid.len() {
                grid[i + VGA_BUF_WIDTH]
            } else {
                spec_blank_cell(color_code)
            },
    )
}

/// One step of the writer on a single byte. A newline scrolls the grid
/// and resets the column; any other byte is rendered on the bottom row
/// at the current column — or dropped when the column is already past
/// the right edge — and the column advances either way.
pub open spec fn spec_write_byte(grid: Seq<u16>, col: int, color_code: u8, byte: u8) -> (
    Seq<u16>,
    int,
) {
    if byte == NEWLINE {
        (spec_scrolled(grid, color_code), 0)
    } else if 0 <= col < VGA_BUF_WIDTH {
        (
            grid.update(
                spec_cell_index(BOTTOM_ROW as int, col),
                spec_display_char(byte, color_code),
            ),
            col + 1,
        )
    } else {
        (grid, col + 1)
    }
}

/// The writer's grid and column after a whole message, byte by byte.
pub open spec fn spec_write_bytes(grid: Seq<u16>, col: int, color_code: u8, msg: Seq<u8>) -> (
    Seq<u16>,
    int,
)
    decreases msg.len(),
{
    if msg.len() == 0 {
        (grid, col)
    } else {
        let stepped = spec_write_byte(grid, col, color_code, msg[0]);
        spec_write_bytes(stepped.0, stepped.1, color_code, msg.subrange(1, msg.len() as int))
    }
}

/// The grid after a whole message.
pub open spec fn spec_grid_after(grid: Seq<u16>, col: int, color_code: u8, msg: Seq<u8>) -> Seq<
    u16,
> {
    spec_write_bytes(grid, col, color_code, msg).0
}

/// The column after a whole message.
pub open spec fn spec_col_after(grid: Seq<u16>, col: int, color_code: u8, msg: Seq<u8>) -> int {
    spec_write_bytes(grid, col, color_code, msg).1
}

/// Holds when every cell of the grid shows a blank character.
pub open spec fn all_chars_blank(grid: Seq<u16>) -> bool {
    forall|i: int| 0 <= i < grid.len() ==> spec_cell_char(#[trigger] grid[i]) == SPACE
}

/// Holds when every byte of the message is a newline.
pub open spec fn all_newlines(msg: Seq<u8>) -> bool {
    forall|i: int| 0 <= i < msg.len() ==> #[trigger] msg[i] == NEWLINE
}

/// Holds when no byte of the message is a newline.
pub open spec fn no_newlines(msg: Seq<u8>) -> bool {
    forall|i: int| 0 <= i < msg.len() ==> #[trigger] msg[i] != NEWLINE
}

/// A scroll preserves the order of the rows: each row above the bottom
/// takes the content the row below it had, and the bottom row becomes
/// blanks carrying the writer's attribute.
pub proof fn lemma_scroll_preserves_row_order(grid: Seq<u16>, color_code: u8)
    requires
        grid.len() == GRID_CELLS,
    ensures
        spec_scrolled(grid, color_code).len() == GRID_CELLS,
        forall|row: int, col: int|
            0 <= row < BOTTOM_ROW && 0 <= col < VGA_BUF_WIDTH ==> spec_scrolled(grid, color_code)[
                #[trigger] spec_cell_index(row, col)
            ] == grid[spec_cell_index(row + 1, col)],
        forall|col: int|
            0 <= col < VGA_BUF_WIDTH ==> spec_scrolled(grid, color_code)[spec_cell_index(
                BOTTOM_ROW as int,
                col,
            )] == spec_blank_cell(color_code),
{
}

/// A newline never renders a glyph: on a grid whose characters are all
/// blank, a message of nothing but newlines leaves every character byte
/// as it was, and the bottom row ends up blank with the writer's
/// attribute.
pub proof fn lemma_newlines_render_no_glyph(grid: Seq<u16>, col: int, color_code: u8, msg: Seq<u8>)
    requires
        grid.len() == GRID_CELLS,
        all_chars_blank(grid),
        all_newlines(msg),
    ensures
        spec_grid_after(grid, col, color_code, msg).len() == GRID_CELLS,
        all_chars_blank(spec_grid_after(grid, col, color_code, msg)),
        forall|i: int|
            0 <= i < GRID_CELLS ==> spec_cell_char(
                #[trigger] spec_grid_after(grid, col, color_code, msg)[i],
            ) == spec_cell_char(grid[i]),
        msg.len() > 0 ==> forall|c: int|
            0 <= c < VGA_BUF_WIDTH ==> spec_grid_after(grid, col, color_code, msg)[
                #[trigger] spec_cell_index(BOTTOM_ROW as int, c)
            ] == spec_blank_cell(color_code),
    decreases msg.len(),
{
    lemma_display_char_round_trip(SPACE, color_code);
    if msg.len() > 0 {
        let scrolled = spec_scrolled(grid, color_code);
        assert(all_chars_blank(scrolled));
        lemma_newlines_render_no_glyph(
            scrolled,
            0,
            color_code,
            msg.subrange(1, msg.len() as int),
        );
    }
}

/// A run of newlines grows the blank region upward from the bottom of
/// the grid: if every cell from `from` on is blank, then after the
/// message every cell from `from` less one row per newline is blank.
pub proof fn lemma_newlines_extend_blank(
    grid: Seq<u16>,
    col: int,
    color_code: u8,
    msg: Seq<u8>,
    from: int,
)
    requires
        grid.len() == GRID_CELLS,
        all_newlines(msg),
        0 <= from <= GRID_CELLS,
        forall|i: int| from <= i < GRID_CELLS ==> #[trigger] grid[i] == spec_blank_cell(color_code),
    ensures
        spec_grid_after(grid, col, color_code, msg).len() == GRID_CELLS,
        forall|i: int|
            0 <= i < GRID_CELLS && from - msg.len() * VGA_BUF_WIDTH <= i ==> #[trigger] spec_grid_after(
                grid,
                col,
                color_code,
                msg,
            )[i] == spec_blank_cell(color_code),
    decreases msg.len(),
{
    if msg.len() > 0 {
        let scrolled = spec_scrolled(grid, color_code);
        let lifted = if from - VGA_BUF_WIDTH >= 0 {
            from - VGA_BUF_WIDTH
        } else {
            0
        };
        assert(forall|i: int|
            lifted <= i < GRID_CELLS ==> #[trigger] scrolled[i] == spec_blank_cell(color_code));
        lemma_newlines_extend_blank(
            scrolled,
            0,
            color_code,
            msg.subrange(1, msg.len() as int),
            lifted,
        );
    }
}

/// A non-empty message of nothing but newlines leaves the column at zero.
pub proof fn lemma_newlines_reset_column(grid: Seq<u16>, col: int, color_code: u8, msg: Seq<u8>)
    requires
        grid.len() == GRID_CELLS,
        all_newlines(msg),
        msg.len() > 0,
    ensures
        spec_col_after(grid, col, color_code, msg) == 0,
    decreases msg.len(),
{
    if msg.len() > 1 {
        lemma_newlines_reset_column(
            spec_scrolled(grid, color_code),
            0,
            color_code,
            msg.subrange(1, msg.len() as int),
        );
    } else {
        reveal_with_fuel(spec_write_bytes, 2);
        assert(msg[0] == NEWLINE);
        assert(msg.subrange(1, msg.len() as int) =~= Seq::<u8>::empty());
    }
}

/// A full grid height of newlines blanks every cell with the writer's
/// attribute and resets the column, whatever the grid held before.
pub proof fn lemma_full_grid_of_newlines_blanks_grid(
    grid: Seq<u16>,
    col: int,
    color_code: u8,
    msg: Seq<u8>,
)
    requires
        grid.len() == GRID_CELLS,
        all_newlines(msg),
        msg.len() >= GRID_ROWS,
    ensures
        forall|i: int|
            0 <= i < GRID_CELLS ==> #[trigger] spec_grid_after(grid, col, color_code, msg)[i]
                == spec_blank_cell(color_code),
        spec_col_after(grid, col, color_code, msg) == 0,
{
    lemma_newlines_extend_blank(grid, col, color_code, msg, GRID_CELLS as int);
    lemma_newlines_reset_column(grid, col, color_code, msg);
}

/// Column monotonicity: a message without newlines advances the column
/// by exactly its length, and no cell outside the written span of the
/// bottom row is modified.
pub proof fn lemma_column_advance(grid: Seq<u16>, col: int, color_code: u8, msg: Seq<u8>)
    requires
        grid.len() == GRID_CELLS,
        0 <= col,
        no_newlines(msg),
    ensures
        spec_col_after(grid, col, color_code, msg) == col + msg.len(),
        spec_grid_after(grid, col, color_code, msg).len() == GRID_CELLS,
        forall|i: int|
            0 <= i < GRID_CELLS && !(spec_cell_index(BOTTOM_ROW as int, col) <= i
                < spec_cell_index(BOTTOM_ROW as int, col + msg.len())) ==> #[trigger] spec_grid_after(
                grid,
                col,
                color_code,
                msg,
            )[i] == grid[i],
    decreases msg.len(),
{
    if msg.len() > 0 {
        let stepped = spec_write_byte(grid, col, color_code, msg[0]);
        lemma_column_advance(stepped.0, col + 1, color_code, msg.subrange(1, msg.len() as int));
    }
}

/// The display writer: a colour attribute, the current output column,
/// and the character grid it renders into.
pub struct Writer {
    color_code: u8,
    col: usize,
    grid: Vec<u16>,
}

impl Writer {
    /// The cells of the grid.
    pub closed spec fn spec_grid(&self) -> Seq<u16> {
        self.grid@
    }

    /// The current output column.
    pub closed spec fn spec_col(&self) -> int {
        self.col as int
    }

    /// The current colour attribute.
    pub closed spec fn spec_color(&self) -> u8 {
        self.color_code
    }

    /// A well-formed writer addresses exactly the cells of the grid.
    pub open spec fn wf(&self) -> bool {
        self.spec_grid().len() == GRID_CELLS
    }

    /// A fresh writer: column zero, default attribute, blank grid.
    pub fn new() -> (writer: Writer)
        ensures
            writer.wf(),
            writer.spec_col() == 0,
            writer.spec_color() == spec_color_code(Color::Black, Color::White),
            forall|i: int|
                0 <= i < GRID_CELLS ==> writer.spec_grid()[i] == spec_blank_cell(
                    writer.spec_color(),
                ),
    {
        let color_code = default_color();
        let blank = new_display_char_color(SPACE, color_code);
        let mut grid: Vec<u16> = Vec::new();
        let mut i: usize = 0;
        while i < GRID_CELLS
            invariant
                i == grid@.len(),
                i <= GRID_CELLS,
                blank == spec_blank_cell(color_code),
                forall|j: int| 0 <= j < i ==> grid@[j] == spec_blank_cell(color_code),
            decreases GRID_CELLS - i,
        {
            grid.push(blank);
            i += 1;
        }
        Writer { color_code, col: 0, grid }
    }

    /// Scrolls the grid up one row, clears the bottom row to blanks with
    /// the current attribute, and resets the column.
    fn new_line(&mut self)
        requires
            old(self).wf(),
        ensures
            final(self).wf(),
            final(self).spec_color() == old(self).spec_color(),
            final(self).spec_col() == 0,
            final(self).spec_grid() == spec_scrolled(old(self).spec_grid(), old(self).spec_color()),
    {
        let ghost start = self.grid@;
        let ghost attr = self.color_code;

        // Shift every cell up one row, reading each source before any
        // later iteration can overwrite it.
        let mut i: usize = 0;
        while i < GRID_CELLS - VGA_BUF_WIDTH
            invariant
                self.grid@.len() == GRID_CELLS,
                self.color_code == attr,
                i <= GRID_CELLS - VGA_BUF_WIDTH,
                forall|j: int| 0 <= j < i ==> self.grid@[j] == start[j + VGA_BUF_WIDTH],
                forall|j: int| i <= j < GRID_CELLS ==> self.grid@[j] == start[j],
            decreases GRID_CELLS - VGA_BUF_WIDTH - i,
        {
            let shifted = self.grid[i + VGA_BUF_WIDTH];
            self.grid[i] = shifted;
            i += 1;
        }

        // Clear the bottom row.
        let blank = new_display_char_color(SPACE, self.color_code);
        let mut i: usize = GRID_CELLS - VGA_BUF_WIDTH;
        while i < GRID_CELLS
            invariant
                self.grid@.len() == GRID_CELLS,
                self.color_code == attr,
                GRID_CELLS - VGA_BUF_WIDTH <= i <= GRID_CELLS,
                blank == spec_blank_cell(attr),
                forall|j: int|
                    0 <= j < GRID_CELLS - VGA_BUF_WIDTH ==> self.grid@[j] == start[j
                        + VGA_BUF_WIDTH],
                forall|j: int|
                    GRID_CELLS - VGA_BUF_WIDTH <= j < i ==> self.grid@[j] == spec_blank_cell(attr),
            decreases GRID_CELLS - i,
        {
            self.grid[i] = blank;
            i += 1;
        }

        self.col = 0;
        proof {
            assert(self.grid@ =~= spec_scrolled(start, attr));
        }
    }

    /// Renders a message byte by byte: a newline byte scrolls and resets
    /// the column, any other byte becomes a glyph on the bottom row at
    /// the current column (bytes past the right edge are dropped) and
    /// advances the column by one.
    pub fn write(&mut self, msg: &[u8])
        requires
            old(self).wf(),
            old(self).spec_col() + msg@.len() <= usize::MAX,
        ensures
            final(self).wf(),
            final(self).spec_color() == old(self).spec_color(),
            final(self).spec_grid() == spec_grid_after(
                old(self).spec_grid(),
                old(self).spec_col(),
                old(self).spec_color(),
                msg@,
            ),
            final(self).spec_col() == spec_col_after(
                old(self).spec_grid(),
                old(self).spec_col(),
                old(self).spec_color(),
                msg@,
            ),
    {
        let ghost start = self.grid@;
        let ghost start_col = self.col as int;
        let ghost attr = self.color_code;
        proof {
            assert(msg@.subrange(0, msg@.len() as int) =~= msg@);
        }
        let mut i: usize = 0;
        while i < msg.len()
            invariant
                self.wf(),
                self.color_code == attr,
                i <= msg@.len(),
                self.col + (msg@.len() - i) <= usize::MAX,
                spec_write_bytes(
                    self.grid@,
                    self.col as int,
                    attr,
                    msg@.subrange(i as int, msg@.len() as int),
                ) == spec_write_bytes(start, start_col, attr, msg@),
            decreases msg@.len() - i,
        {
            let ghost remaining = msg@.subrange(i as int, msg@.len() as int);
            proof {
                assert(remaining[0] == msg@[i as int]);
                assert(remaining.subrange(1, remaining.len() as int) =~= msg@.subrange(
                    i + 1,
                    msg@.len() as int,
                ));
            }
            let byte = msg[i];
            if byte == NEWLINE {
                self.new_line();
            } else {
                if self.col < VGA_BUF_WIDTH {
                    let cell = new_display_char_color(byte, self.color_code);
                    self.grid[BOTTOM_ROW * VGA_BUF_WIDTH + self.col] = cell;
                }
                self.col = self.col + 1;
            }
            i += 1;
        }
        proof {
            assert(msg@.subrange(msg@.len() as int, msg@.len() as int) =~= Seq::<u8>::empty());
        }
    }

    /// The current output column.
    pub fn col(&self) -> (col: usize)
        ensures
            col as int == self.spec_col(),
    {
        self.col
    }

    /// The current colour attribute.
    pub fn color_code(&self) -> (code: u8)
        ensures
            code == self.spec_color(),
    {
        self.color_code
    }

    /// Reads one cell of the grid.
    pub fn cell(&self, row: usize, col: usize) -> (cell: u16)
        requires
            self.wf(),
            row < GRID_ROWS,
            col < VGA_BUF_WIDTH,
        ensures
            cell == self.spec_grid()[spec_cell_index(row as int, col as int)],
    {
        self.grid[row * VGA_BUF_WIDTH + col]
    }
}

} // verus!
