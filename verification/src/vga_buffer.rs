//! The color attribute of the memory-mapped text buffer.  The buffer and
//! its writer are hardware collaborators outside this crate's scope; the
//! color byte they use is plain arithmetic, stated and checked here.

use vstd::prelude::*;

verus! {

/// The sixteen standard text-mode colors, in hardware palette order.
#[derive(Clone, Copy, Debug, PartialEq, Eq, Structural)]
pub enum Color {
    Black,
    Blue,
    Green,
    Cyan,
    Red,
    Magenta,
    Brown,
    LightGray,
    DarkGray,
    LightBlue,
    LightGreen,
    LightCyan,
    LightRed,
    Pink,
    Yellow,
    White,
}

/// The hardware number of a color: its position in the palette.
pub open spec fn color_number(c: Color) -> u8 {
    match c {
        Color::Black => 0,
        Color::Blue => 1,
        Color::Green => 2,
        Color::Cyan => 3,
        Color::Red => 4,
        Color::Magenta => 5,
        Color::Brown => 6,
        Color::LightGray => 7,
        Color::DarkGray => 8,
        Color::LightBlue => 9,
        Color::LightGreen => 10,
        Color::LightCyan => 11,
        Color::LightRed => 12,
        Color::Pink => 13,
        Color::Yellow => 14,
        Color::White => 15,
    }
}

impl Color {
    pub fn number(self) -> (n: u8)
        ensures
            n == color_number(self),
            n <= 15,
    {
        match self {
            Color::Black => 0,
            Color::Blue => 1,
            Color::Green => 2,
            Color::Cyan => 3,
            Color::Red => 4,
            Color::Magenta => 5,
            Color::Brown => 6,
            Color::LightGray => 7,
            Color::DarkGray => 8,
            Color::LightBlue => 9,
            Color::LightGreen => 10,
            Color::LightCyan => 11,
            Color::LightRed => 12,
            Color::Pink => 13,
            Color::Yellow => 14,
            Color::White => 15,
        }
    }
}

/// A color attribute byte: the background color in the upper four bits
/// and the text color in the lower four.
#[derive(Clone, Copy, Debug, PartialEq, Eq, Structural)]
pub struct ColorCode(pub u8);

impl ColorCode {
    pub fn new(text: Color, background: Color) -> (c: ColorCode)
        ensures
            c.0 == color_number(background) * 16 + color_number(text),
    {
        ColorCode(background.number() * 16 + text.number())
    }
}

/// The height of the text buffer, in rows.
pub const BUFFER_HEIGHT: usize = 25;

/// The width of the text buffer, in character cells.
pub const BUFFER_WIDTH: usize = 80;

/// The byte that starts a new line.
pub const NEWLINE: u8 = 10;

/// The byte printed in place of unprintable ones.
pub const REPLACEMENT: u8 = 0xfe;

/// One character cell of the text buffer.
#[derive(Clone, Copy, Debug, PartialEq, Eq, Structural)]
pub struct ScreenChar {
    pub ascii_character: u8,
    pub color_code: ColorCode,
}

/// The blank cell rows are cleared with: a space in the given colors.
pub open spec fn blank_char(color: ColorCode) -> ScreenChar {
    ScreenChar { ascii_character: 32, color_code: color }
}

/// A whole row of blank cells.
pub open spec fn blank_row(color: ColorCode) -> Seq<ScreenChar> {
    Seq::new(BUFFER_WIDTH as nat, |i: int| blank_char(color))
}

/// Scrolling: every row moves up by one and the bottom row is cleared.
pub open spec fn scrolled(rows: Seq<Seq<ScreenChar>>, color: ColorCode) -> Seq<Seq<ScreenChar>> {
    rows.subrange(1, rows.len() as int).push(blank_row(color))
}

/// Whether a byte is written as itself: printable ASCII or newline.
pub open spec fn printable(byte: u8) -> bool {
    (0x20 <= byte <= 0x7e) || byte == NEWLINE
}

/// The byte actually written for an input byte.
pub open spec fn sanitized(byte: u8) -> u8 {
    if printable(byte) {
        byte
    } else {
        REPLACEMENT
    }
}

/// What writing one byte does to the screen: a newline scrolls; any other
/// byte lands in the current column of the bottom row, scrolling first if
/// the line is full.  Returns the rows and the new column position.
pub open spec fn spec_write_byte(
    rows: Seq<Seq<ScreenChar>>,
    column: int,
    color: ColorCode,
    byte: u8,
) -> (Seq<Seq<ScreenChar>>, int) {
    if byte == NEWLINE {
        (scrolled(rows, color), 0)
    } else {
        let base = if column >= BUFFER_WIDTH {
            scrolled(rows, color)
        } else {
            rows
        };
        let col = if column >= BUFFER_WIDTH {
            0int
        } else {
            column
        };
        let bottom = BUFFER_HEIGHT as int - 1;
        let cell = ScreenChar { ascii_character: byte, color_code: color };
        (base.update(bottom, base[bottom].update(col, cell)), col + 1)
    }
}

/// What writing a byte string does to the screen: each byte in order,
/// unprintable ones replaced.
pub open spec fn spec_write_bytes(
    rows: Seq<Seq<ScreenChar>>,
    column: int,
    color: ColorCode,
    bytes: Seq<u8>,
) -> (Seq<Seq<ScreenChar>>, int)
    decreases bytes.len(),
{
    if bytes.len() == 0 {
        (rows, column)
    } else {
        let stepped = spec_write_byte(rows, column, color, sanitized(bytes[0]));
        spec_write_bytes(stepped.0, stepped.1, color, bytes.subrange(1, bytes.len() as int))
    }
}

/// Writing a byte string and then one more byte is writing the longer
/// string: the law that lets a byte-at-a-time loop meet the whole-string
/// contract.
pub proof fn lemma_write_bytes_snoc(
    rows: Seq<Seq<ScreenChar>>,
    column: int,
    color: ColorCode,
    bytes: Seq<u8>,
    byte: u8,
)
    ensures
        spec_write_bytes(rows, column, color, bytes.push(byte)) == ({
            let done = spec_write_bytes(rows, column, color, bytes);
            spec_write_byte(done.0, done.1, color, sanitized(byte))
        }),
    decreases bytes.len(),
{
    let whole = bytes.push(byte);
    if bytes.len() == 0 {
        assert(whole[0] == byte);
        assert(whole.subrange(1, whole.len() as int) =~= Seq::<u8>::empty());
        let stepped = spec_write_byte(rows, column, color, sanitized(byte));
        assert(spec_write_bytes(stepped.0, stepped.1, color, Seq::<u8>::empty()) == (
        stepped.0,
        stepped.1,
        ));
        assert(spec_write_bytes(rows, column, color, bytes) == (rows, column));
    } else {
        assert(whole[0] == bytes[0]);
        assert(whole.subrange(1, whole.len() as int) =~= bytes.subrange(
            1,
            bytes.len() as int,
        ).push(byte));
        let stepped = spec_write_byte(rows, column, color, sanitized(bytes[0]));
        lemma_write_bytes_snoc(
            stepped.0,
            stepped.1,
            color,
            bytes.subrange(1, bytes.len() as int),
            byte,
        );
    }
}

/// The text-mode writer, modeled over an owned two-dimensional buffer of
/// character cells.  On the hardware the cells live in the memory-mapped
/// text buffer; the wrapping, scrolling and clearing rules are the same.
pub struct Writer {
    pub column_position: usize,
    pub color_code: ColorCode,
    pub buffer: Vec<Vec<ScreenChar>>,
}

impl Writer {
    /// The buffer contents, row by row.
    pub open spec fn rows(self) -> Seq<Seq<ScreenChar>> {
        self.buffer@.map_values(|row: Vec<ScreenChar>| row@)
    }

    pub open spec fn wf(self) -> bool {
        &&& self.buffer@.len() == BUFFER_HEIGHT
        &&& forall|r: int|
            0 <= r < BUFFER_HEIGHT ==> #[trigger] self.buffer@[r]@.len() == BUFFER_WIDTH
        &&& self.column_position <= BUFFER_WIDTH
    }

    /// A blank screen in the normal color (white text on black), with the
    /// cursor at the start of the bottom line.
    pub fn new() -> (w: Writer)
        ensures
            w.wf(),
            w.column_position == 0,
            w.color_code == (ColorCode(15u8)),
            forall|r: int| 0 <= r < BUFFER_HEIGHT ==> w.rows()[r] == blank_row(ColorCode(15u8)),
    {
        let color_code = ColorCode::new(Color::White, Color::Black);
        proof {
            assert(color_code == (ColorCode(15u8)));
        }
        let mut buffer: Vec<Vec<ScreenChar>> = Vec::new();
        let mut r: usize = 0;
        while r < BUFFER_HEIGHT
            invariant
                color_code == (ColorCode(15u8)),
                r <= BUFFER_HEIGHT,
                buffer@.len() == r,
                forall|q: int| 0 <= q < r ==> #[trigger] buffer@[q]@ == blank_row(ColorCode(15u8)),
            decreases BUFFER_HEIGHT - r,
        {
            let mut row: Vec<ScreenChar> = Vec::new();
            let mut c: usize = 0;
            while c < BUFFER_WIDTH
                invariant
                    color_code == (ColorCode(15u8)),
                    c <= BUFFER_WIDTH,
                    row@.len() == c,
                    forall|i: int| 0 <= i < c ==> #[trigger] row@[i] == blank_char(ColorCode(15u8)),
                decreases BUFFER_WIDTH - c,
            {
                row.push(ScreenChar { ascii_character: 32, color_code });
                c = c + 1;
            }
            proof {
                assert(row@ =~= blank_row(ColorCode(15u8)));
            }
            buffer.push(row);
            r = r + 1;
        }
        let w = Writer { column_position: 0, color_code, buffer };
        proof {
            assert forall|q: int| 0 <= q < BUFFER_HEIGHT implies w.rows()[q] == blank_row(
                ColorCode(15u8),
            ) by {
                assert(w.rows()[q] == w.buffer@[q]@);
            }
        }
        w
    }

    /// Clears one row to blanks in the current color.
    pub fn clear_row(&mut self, row: usize)
        requires
            old(self).wf(),
            row < BUFFER_HEIGHT,
        ensures
            final(self).wf(),
            final(self).column_position == old(self).column_position,
            final(self).color_code == old(self).color_code,
            final(self).rows() == old(self).rows().update(row as int, blank_row(old(self).color_code)),
    {
        let blank = ScreenChar { ascii_character: 32, color_code: self.color_code };
        let mut col: usize = 0;
        while col < BUFFER_WIDTH
            invariant
                old(self).wf(),
                row < BUFFER_HEIGHT,
                col <= BUFFER_WIDTH,
                blank == blank_char(old(self).color_code),
                self.column_position == old(self).column_position,
                self.color_code == old(self).color_code,
                self.buffer@.len() == BUFFER_HEIGHT,
                forall|q: int|
                    0 <= q < BUFFER_HEIGHT && q != row ==> #[trigger] self.buffer@[q]
                        == old(self).buffer@[q],
                self.buffer@[row as int]@.len() == BUFFER_WIDTH,
                forall|i: int|
                    0 <= i < col ==> #[trigger] self.buffer@[row as int]@[i] == blank_char(
                        old(self).color_code,
                    ),
                forall|i: int|
                    col <= i < BUFFER_WIDTH ==> #[trigger] self.buffer@[row as int]@[i] == old(
                        self,
                    ).buffer@[row as int]@[i],
            decreases BUFFER_WIDTH - col,
        {
            self.buffer[row][col] = blank;
            col = col + 1;
        }
        proof {
            assert(self.buffer@[row as int]@ =~= blank_row(old(self).color_code));
            assert(self.rows() =~= old(self).rows().update(
                row as int,
                blank_row(old(self).color_code),
            ));
        }
    }

    /// Scrolls: every row moves up by one, the bottom row is cleared, and
    /// the cursor returns to the start of the line.
    pub fn new_line(&mut self)
        requires
            old(self).wf(),
        ensures
            final(self).wf(),
            final(self).color_code == old(self).color_code,
            final(self).column_position == 0,
            final(self).rows() == scrolled(old(self).rows(), old(self).color_code),
    {
        let mut row: usize = 1;
        while row < BUFFER_HEIGHT
            invariant
                old(self).wf(),
                1 <= row <= BUFFER_HEIGHT,
                self.column_position == old(self).column_position,
                self.color_code == old(self).color_code,
                self.buffer@.len() == BUFFER_HEIGHT,
                forall|q: int|
                    0 <= q < row - 1 ==> #[trigger] self.buffer@[q]@ == old(self).buffer@[q + 1]@,
                forall|q: int|
                    row - 1 <= q < BUFFER_HEIGHT ==> #[trigger] self.buffer@[q]
                        == old(self).buffer@[q],
            decreases BUFFER_HEIGHT - row,
        {
            let mut col: usize = 0;
            while col < BUFFER_WIDTH
                invariant
                    old(self).wf(),
                    1 <= row < BUFFER_HEIGHT,
                    col <= BUFFER_WIDTH,
                    self.column_position == old(self).column_position,
                    self.color_code == old(self).color_code,
                    self.buffer@.len() == BUFFER_HEIGHT,
                    forall|q: int|
                        0 <= q < row - 1 ==> #[trigger] self.buffer@[q]@ == old(self).buffer@[q
                            + 1]@,
                    forall|q: int|
                        row <= q < BUFFER_HEIGHT ==> #[trigger] self.buffer@[q]
                            == old(self).buffer@[q],
                    self.buffer@[row as int - 1]@.len() == BUFFER_WIDTH,
                    forall|i: int|
                        0 <= i < col ==> #[trigger] self.buffer@[row as int - 1]@[i] == old(
                            self,
                        ).buffer@[row as int]@[i],
                    forall|i: int|
                        col <= i < BUFFER_WIDTH ==> #[trigger] self.buffer@[row as int - 1]@[i]
                            == old(self).buffer@[row as int - 1]@[i],
                decreases BUFFER_WIDTH - col,
            {
                let cell = self.buffer[row][col];
                self.buffer[row - 1][col] = cell;
                col = col + 1;
            }
            proof {
                assert(self.buffer@[row as int - 1]@ =~= old(self).buffer@[row as int]@);
            }
            row = row + 1;
        }
        self.clear_row(BUFFER_HEIGHT - 1);
        self.column_position = 0;
        proof {
            assert(self.rows() =~= scrolled(old(self).rows(), old(self).color_code));
        }
    }

    /// Writes one byte: a newline scrolls, any other byte lands at the
    /// cursor on the bottom row (scrolling first when the line is full).
    pub fn write_byte(&mut self, byte: u8)
        requires
            old(self).wf(),
        ensures
            final(self).wf(),
            final(self).color_code == old(self).color_code,
            ({
                let stepped = spec_write_byte(
                    old(self).rows(),
                    old(self).column_position as int,
                    old(self).color_code,
                    byte,
                );
                final(self).rows() == stepped.0 && final(self).column_position as int == stepped.1
            }),
    {
        if byte == NEWLINE {
            self.new_line();
        } else {
            if self.column_position >= BUFFER_WIDTH {
                self.new_line();
            }
            let row = BUFFER_HEIGHT - 1;
            let col = self.column_position;
            let color_code = self.color_code;
            let ghost base = self.rows();
            self.buffer[row][col] = ScreenChar { ascii_character: byte, color_code };
            self.column_position = self.column_position + 1;
            proof {
                let cell = ScreenChar { ascii_character: byte, color_code: old(self).color_code };
                assert(self.rows() =~= base.update(
                    BUFFER_HEIGHT as int - 1,
                    base[BUFFER_HEIGHT as int - 1].update(col as int, cell),
                ));
            }
        }
    }

    /// Writes a byte string: printable ASCII and newlines as themselves,
    /// anything else as the replacement byte.
    pub fn write_string(&mut self, s: &[u8])
        requires
            old(self).wf(),
        ensures
            final(self).wf(),
            final(self).color_code == old(self).color_code,
            ({
                let done = spec_write_bytes(
                    old(self).rows(),
                    old(self).column_position as int,
                    old(self).color_code,
                    s@,
                );
                final(self).rows() == done.0 && final(self).column_position as int == done.1
            }),
    {
        let mut i: usize = 0;
        while i < s.len()
            invariant
                self.wf(),
                i <= s@.len(),
                self.color_code == old(self).color_code,
                ({
                    let done = spec_write_bytes(
                        old(self).rows(),
                        old(self).column_position as int,
                        old(self).color_code,
                        s@.take(i as int),
                    );
                    self.rows() == done.0 && self.column_position as int == done.1
                }),
            decreases s@.len() - i,
        {
            let byte = s[i];
            proof {
                assert(s@.take(i as int + 1) =~= s@.take(i as int).push(s@[i as int]));
                lemma_write_bytes_snoc(
                    old(self).rows(),
                    old(self).column_position as int,
                    old(self).color_code,
                    s@.take(i as int),
                    s@[i as int],
                );
            }
            if (0x20 <= byte && byte <= 0x7e) || byte == NEWLINE {
                self.write_byte(byte);
            } else {
                self.write_byte(REPLACEMENT);
            }
            i = i + 1;
        }
        proof {
            assert(s@.take(s@.len() as int) =~= s@);
        }
    }
}

} // verus!
