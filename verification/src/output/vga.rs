//! A verified model of the VGA text screen.
//!
//! The screen is 25 rows of 80 character cells, held here as plain values;
//! the writer tracks a cursor and a current color and implements the exact
//! cell, cursor and scrolling behaviour of the text console. Copying the
//! cells to the memory-mapped hardware buffer is volatile raw-memory work
//! and stays outside this crate.

use vstd::prelude::*;

verus! {

/// Width (in characters) of the VGA text buffer.
pub const BUFFER_WIDTH: usize = 80;

/// Height (in characters) of the VGA text buffer.
pub const BUFFER_HEIGHT: usize = 25;

/// The number of character cells on the screen.
pub const BUFFER_CELLS: usize = 80 * 25;

/// A VGA color.
#[derive(Debug, Clone, Copy, PartialEq, Eq, Structural)]
pub enum Color {
    Black,
    Blue,
    Green,
    Cyan,
    Red,
    Magenta,
    Brown,
    LightGray,
    DarkGray,
    LightBlue,
    LightGreen,
    LightCyan,
    LightRed,
    Pink,
    Yellow,
    White,
}

impl Color {
    /// The hardware code of the color: 0 through 15, in palette order.
    pub open spec fn spec_code(self) -> u8 {
        match self {
            Color::Black => 0,
            Color::Blue => 1,
            Color::Green => 2,
            Color::Cyan => 3,
            Color::Red => 4,
            Color::Magenta => 5,
            Color::Brown => 6,
            Color::LightGray => 7,
            Color::DarkGray => 8,
            Color::LightBlue => 9,
            Color::LightGreen => 10,
            Color::LightCyan => 11,
            Color::LightRed => 12,
            Color::Pink => 13,
            Color::Yellow => 14,
            Color::White => 15,
        }
    }

    /// The hardware code of the color.
    pub fn code(self) -> (r: u8)
        ensures
            r == self.spec_code(),
    {
        match self {
            Color::Black => 0,
            Color::Blue => 1,
            Color::Green => 2,
            Color::Cyan => 3,
            Color::Red => 4,
            Color::Magenta => 5,
            Color::Brown => 6,
            Color::LightGray => 7,
            Color::DarkGray => 8,
            Color::LightBlue => 9,
            Color::LightGreen => 10,
            Color::LightCyan => 11,
            Color::LightRed => 12,
            Color::Pink => 13,
            Color::Yellow => 14,
            Color::White => 15,
        }
    }
}

/// A VGA foreground and background color pair: the background code in the
/// high four bits, the foreground code in the low four.
#[derive(Debug, Clone, Copy, PartialEq, Eq, Structural)]
pub struct ColorCode(pub u8);

impl ColorCode {
    /// Packs a foreground and a background color.
    pub fn new(fg: Color, bg: Color) -> (r: Self)
        ensures
            r.0 == bg.spec_code() * 16 + fg.spec_code(),
    {
        ColorCode(bg.code() * 16 + fg.code())
    }
}

/// A single character cell with its color.
#[derive(Debug, Clone, Copy, PartialEq, Eq, Structural)]
pub struct ScreenChar {
    pub character: u8,
    pub color: ColorCode,
}

impl ScreenChar {
    /// A cell showing `character` in `color`.
    pub fn new(character: u8, color: ColorCode) -> (r: Self)
        ensures
            r.character == character,
            r.color == color,
    {
        ScreenChar { character, color }
    }
}

/// The blank cell rows are cleared to.
pub open spec fn spec_blank(color: ColorCode) -> ScreenChar {
    ScreenChar { character: 0, color }
}

/// One cleared row of cells.
pub open spec fn spec_blank_row(color: ColorCode) -> Seq<ScreenChar> {
    Seq::new(BUFFER_WIDTH as nat, |i: int| spec_blank(color))
}

/// A fully cleared screen.
pub open spec fn spec_blank_screen(color: ColorCode) -> Seq<ScreenChar> {
    Seq::new(BUFFER_CELLS as nat, |i: int| spec_blank(color))
}

/// The screen with row `row` cleared to blanks of `color` and every other
/// cell kept.
pub open spec fn spec_clear_row(s: Seq<ScreenChar>, row: int, color: ColorCode) -> Seq<ScreenChar> {
    Seq::new(
        s.len(),
        |i: int|
            if row * BUFFER_WIDTH <= i < (row + 1) * BUFFER_WIDTH {
                spec_blank(color)
            } else {
                s[i]
            },
    )
}

/// The screen scrolled up by one row: every row moves up, and the bottom row
/// is cleared to blanks of `color`.
pub open spec fn spec_scroll(s: Seq<ScreenChar>, color: ColorCode) -> Seq<ScreenChar> {
    s.subrange(BUFFER_WIDTH as int, BUFFER_CELLS as int) + spec_blank_row(color)
}

/// The state a writer models: cursor position, current color, and the
/// screen's cells in row-major order.
pub ghost struct WriterModel {
    pub row: int,
    pub col: int,
    pub color: ColorCode,
    pub screen: Seq<ScreenChar>,
}

/// Starting a new line: the cursor returns to the left edge and moves one
/// row down, scrolling the screen when it is already on the bottom row.
pub open spec fn spec_new_line(m: WriterModel) -> WriterModel {
    if m.row < BUFFER_HEIGHT - 1 {
        WriterModel { row: m.row + 1, col: 0, ..m }
    } else {
        WriterModel { col: 0, screen: spec_scroll(m.screen, m.color), ..m }
    }
}

/// Writing one byte: a newline starts a new line; any other byte lands at
/// the cursor in the current color, and the cursor moves right, wrapping to
/// a new line past the last column.
pub open spec fn spec_write_byte(m: WriterModel, c: u8) -> WriterModel {
    if c == 10 {
        spec_new_line(m)
    } else {
        let written = WriterModel {
            screen: m.screen.update(
                m.row * BUFFER_WIDTH + m.col,
                ScreenChar { character: c, color: m.color },
            ),
            ..m
        };
        if m.col + 1 >= BUFFER_WIDTH {
            spec_new_line(written)
        } else {
            WriterModel { col: m.col + 1, ..written }
        }
    }
}

/// Bytes outside the printable ASCII range (other than newline) are shown as
/// the replacement character 0xfe.
pub open spec fn spec_translate(b: u8) -> u8 {
    if b == 10 || (0x20 <= b <= 0x7e) {
        b
    } else {
        0xfe
    }
}

/// Writing a sequence of bytes: each byte is translated and written in turn.
pub open spec fn spec_write_bytes(m: WriterModel, s: Seq<u8>) -> WriterModel
    decreases s.len(),
{
    if s.len() == 0 {
        m
    } else {
        spec_write_byte(spec_write_bytes(m, s.drop_last()), spec_translate(s.last()))
    }
}

/// The cells of the VGA text screen, in row-major order.
pub struct Buffer {
    pub chars: Vec<ScreenChar>,
}

impl Buffer {
    /// The buffer holds exactly one cell per screen position.
    pub open spec fn wf(self) -> bool {
        self.chars@.len() == BUFFER_CELLS
    }

    /// A buffer with every cell cleared to a blank of `color`.
    pub fn new(color: ColorCode) -> (r: Self)
        ensures
            r.wf(),
            r.chars@ == spec_blank_screen(color),
    {
        let mut chars: Vec<ScreenChar> = Vec::new();
        let mut i: usize = 0;
        while i < BUFFER_CELLS
            invariant
                i <= BUFFER_CELLS,
                chars@.len() == i,
                forall|j: int| 0 <= j < i ==> chars@[j] == spec_blank(color),
            decreases BUFFER_CELLS - i,
        {
            chars.push(ScreenChar::new(0, color));
            i = i + 1;
        }
        proof {
            assert(chars@ =~= spec_blank_screen(color));
        }
        Buffer { chars }
    }

    /// Clears row `row` to blanks of `color`, keeping every other cell.
    pub fn clear_row(&mut self, row: usize, color: ColorCode)
        requires
            old(self).wf(),
            row < BUFFER_HEIGHT,
        ensures
            final(self).wf(),
            final(self).chars@ == spec_clear_row(old(self).chars@, row as int, color),
    {
        let base = row * BUFFER_WIDTH;
        let mut c: usize = 0;
        while c < BUFFER_WIDTH
            invariant
                c <= BUFFER_WIDTH,
                row < BUFFER_HEIGHT,
                base == row * BUFFER_WIDTH,
                self.chars@.len() == BUFFER_CELLS,
                forall|j: int|
                    base <= j < base + c ==> self.chars@[j] == spec_blank(color),
                forall|j: int|
                    0 <= j < BUFFER_CELLS && !(base <= j < base + c) ==> self.chars@[j] == old(
                        self,
                    ).chars@[j],
            decreases BUFFER_WIDTH - c,
        {
            self.chars.set(base + c, ScreenChar::new(0, color));
            c = c + 1;
        }
        proof {
            assert(self.chars@ =~= spec_clear_row(old(self).chars@, row as int, color));
        }
    }

    /// Clears the whole screen to blanks of `color`.
    pub fn clear_screen(&mut self, color: ColorCode)
        requires
            old(self).wf(),
        ensures
            final(self).wf(),
            final(self).chars@ == spec_blank_screen(color),
    {
        let mut i: usize = 0;
        while i < BUFFER_CELLS
            invariant
                i <= BUFFER_CELLS,
                self.chars@.len() == BUFFER_CELLS,
                forall|j: int| 0 <= j < i ==> self.chars@[j] == spec_blank(color),
            decreases BUFFER_CELLS - i,
        {
            self.chars.set(i, ScreenChar::new(0, color));
            i = i + 1;
        }
        proof {
            assert(self.chars@ =~= spec_blank_screen(color));
        }
    }
}

/// A writer over the modeled screen: a cursor, a current color, and the
/// cells.
pub struct Writer {
    pub row: usize,
    pub col: usize,
    pub color: ColorCode,
    pub buff: Buffer,
}

impl Writer {
    /// The state the writer models.
    pub open spec fn model(self) -> WriterModel {
        WriterModel {
            row: self.row as int,
            col: self.col as int,
            color: self.color,
            screen: self.buff.chars@,
        }
    }

    /// The cursor is on the screen and the buffer holds one cell per
    /// position.
    pub open spec fn wf(self) -> bool {
        self.row < BUFFER_HEIGHT && self.col < BUFFER_WIDTH && self.buff.wf()
    }

    /// A writer over a cleared screen, cursor in the top-left corner,
    /// writing white on black.
    pub fn new() -> (r: Self)
        ensures
            r.wf(),
            r.model().row == 0,
            r.model().col == 0,
            r.model().color.0 == 15,
            r.model().screen == spec_blank_screen(ColorCode(15)),
    {
        let color = ColorCode::new(Color::White, Color::Black);
        Writer { row: 0, col: 0, color, buff: Buffer::new(color) }
    }

    /// Moves every line up by one, scrolling the top line off the screen and
    /// clearing the bottom line; the cursor stays where it is.
    pub fn scroll_down(&mut self)
        requires
            old(self).wf(),
        ensures
            final(self).wf(),
            final(self).row == old(self).row,
            final(self).col == old(self).col,
            final(self).color == old(self).color,
            final(self).buff.chars@ == spec_scroll(old(self).buff.chars@, old(self).color),
    {
        let mut i: usize = 0;
        while i < BUFFER_CELLS - BUFFER_WIDTH
            invariant
                i <= BUFFER_CELLS - BUFFER_WIDTH,
                self.row == old(self).row,
                self.col == old(self).col,
                self.color == old(self).color,
                self.buff.chars@.len() == BUFFER_CELLS,
                forall|j: int| 0 <= j < i ==> self.buff.chars@[j] == old(self).buff.chars@[j + 80],
                forall|j: int|
                    i <= j < BUFFER_CELLS ==> self.buff.chars@[j] == old(self).buff.chars@[j],
            decreases BUFFER_CELLS - BUFFER_WIDTH - i,
        {
            let moved = self.buff.chars[i + BUFFER_WIDTH];
            self.buff.chars.set(i, moved);
            i = i + 1;
        }
        let color = self.color;
        self.buff.clear_row(BUFFER_HEIGHT - 1, color);
        proof {
            assert(self.buff.chars@ =~= spec_scroll(old(self).buff.chars@, old(self).color));
        }
    }

    /// Starts a new line, scrolling when the cursor is on the bottom row.
    pub fn new_line(&mut self)
        requires
            old(self).wf(),
        ensures
            final(self).wf(),
            final(self).model() == spec_new_line(old(self).model()),
    {
        self.col = 0;
        if self.row < BUFFER_HEIGHT - 1 {
            self.row = self.row + 1;
        } else {
            self.scroll_down();
        }
    }

    /// Writes a single byte at the cursor in the current color: a newline
    /// starts a new line, anything else fills the cell under the cursor and
    /// moves the cursor right, wrapping past the last column.
    pub fn write_byte(&mut self, c: u8)
        requires
            old(self).wf(),
        ensures
            final(self).wf(),
            final(self).model() == spec_write_byte(old(self).model(), c),
    {
        if c == 10 {
            self.new_line();
        } else {
            let color = self.color;
            self.buff.chars.set(self.row * BUFFER_WIDTH + self.col, ScreenChar::new(c, color));
            if self.col + 1 >= BUFFER_WIDTH {
                self.new_line();
            } else {
                self.col = self.col + 1;
            }
        }
    }

    /// Writes a sequence of bytes at the cursor: printable ASCII and
    /// newlines verbatim, anything else as the replacement character 0xfe.
    pub fn write_bytes(&mut self, bytes: &[u8])
        requires
            old(self).wf(),
        ensures
            final(self).wf(),
            final(self).model() == spec_write_bytes(old(self).model(), bytes@),
    {
        let mut i: usize = 0;
        while i < bytes.len()
            invariant
                i <= bytes@.len(),
                self.wf(),
                self.model() == spec_write_bytes(old(self).model(), bytes@.take(i as int)),
            decreases bytes@.len() - i,
        {
            let b = bytes[i];
            let printable = b == 10 || (0x20 <= b && b <= 0x7e);
            proof {
                assert(bytes@.take(i + 1).drop_last() =~= bytes@.take(i as int));
                assert(bytes@.take(i + 1).last() == bytes@[i as int]);
            }
            if printable {
                self.write_byte(b);
            } else {
                self.write_byte(0xfe);
            }
            i = i + 1;
        }
        proof {
            assert(bytes@.take(bytes@.len() as int) =~= bytes@);
        }
    }
}

} // verus!
