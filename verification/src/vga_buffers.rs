//! The text-buffer writer: colour/attribute codec, the grid of volatile
//! display cells, and the cursor/scroll state machine that places bytes on
//! the bottom row of the display.
//!
//! The hardware grid is modelled by [`WriterView`]: a cursor column, the
//! current attribute, and the grid as a sequence of rows of [`ScreenChar`]
//! cells. Every operation's contract says exactly how it moves that model.

use vstd::prelude::*;
use vstd::string::StringSliceAdditionalSpecFns;

verus! {

/// Number of rows in the display grid.
pub const BUFFER_HEIGHT: usize = 25;

/// Number of columns in the display grid.
pub const BUFFER_WIDTH: usize = 80;

/// One of the 16 colour indices the display hardware knows.
#[allow(dead_code)]
#[derive(Debug, Clone, Copy, PartialEq, Eq, Structural)]
pub enum Color {
    Black,
    Blue,
    Green,
    Cyan,
    Red,
    Magenta,
    Brown,
    LightGray,
    DarkGray,
    LightBlue,
    LightGreen,
    LightCyan,
    LightRed,
    Pink,
    Yellow,
    White,
}

/// The hardware index of a colour, in `[0, 15]`.
pub open spec fn color_index(c: Color) -> u8 {
    match c {
        Color::Black => 0,
        Color::Blue => 1,
        Color::Green => 2,
        Color::Cyan => 3,
        Color::Red => 4,
        Color::Magenta => 5,
        Color::Brown => 6,
        Color::LightGray => 7,
        Color::DarkGray => 8,
        Color::LightBlue => 9,
        Color::LightGreen => 10,
        Color::LightCyan => 11,
        Color::LightRed => 12,
        Color::Pink => 13,
        Color::Yellow => 14,
        Color::White => 15,
    }
}

impl Color {
    /// The hardware index of this colour.
    pub fn index(self) -> (r: u8)
        ensures
            r == color_index(self),
    {
        match self {
            Color::Black => 0,
            Color::Blue => 1,
            Color::Green => 2,
            Color::Cyan => 3,
            Color::Red => 4,
            Color::Magenta => 5,
            Color::Brown => 6,
            Color::LightGray => 7,
            Color::DarkGray => 8,
            Color::LightBlue => 9,
            Color::LightGreen => 10,
            Color::LightCyan => 11,
            Color::LightRed => 12,
            Color::Pink => 13,
            Color::Yellow => 14,
            Color::White => 15,
        }
    }
}

/// A full cell attribute: foreground index in the low nibble, background
/// index in the high nibble.
#[derive(Debug, Clone, Copy, PartialEq, Eq, Structural)]
pub struct ColorCode(pub u8);

impl ColorCode {
    /// Packs a foreground and a background colour into one attribute byte.
    pub fn new(fg: Color, bg: Color) -> (r: ColorCode)
        ensures
            r.0 == color_index(bg) * 16 + color_index(fg),
    {
        let f = fg.index();
        let b = bg.index();
        assert((b << 4) | f == b * 16 + f) by (bit_vector)
            requires
                b <= 15 && f <= 15,
        ;
        ColorCode((b << 4) | f)
    }
}

/// One on-screen character slot: an ASCII byte and its attribute. The
/// two-byte layout is dictated by the display hardware.
#[derive(Debug, Clone, Copy, PartialEq, Eq, Structural)]
pub struct ScreenChar {
    pub ascii_char: u8,
    pub color_code: ColorCode,
}

/// Declares the volatile cell wrapper so that grid cells can be held and
/// passed around; the value inside is opaque and is named by [`vol_val`].
#[verifier::external_type_specification]
#[verifier::external_body]
#[verifier::reject_recursive_types(T)]
pub struct ExVolatile<T: Copy>(volatile::Volatile<T>);

/// The character a volatile cell currently holds. Every access to a cell
/// goes through the trusted wrappers below, whose contracts speak of this.
pub uninterp spec fn vol_val(v: volatile::Volatile<ScreenChar>) -> ScreenChar;

/// Relies on volatile::Volatile::new: the cell wraps exactly the given value.
#[verifier::external_body]
fn vol_new(value: ScreenChar) -> (r: volatile::Volatile<ScreenChar>)
    ensures
        vol_val(r) == value,
{
    volatile::Volatile::new(value)
}

/// Relies on volatile::Volatile::read: a volatile load of the wrapped value.
#[verifier::external_body]
fn vol_read(cell: &volatile::Volatile<ScreenChar>) -> (r: ScreenChar)
    ensures
        r == vol_val(*cell),
{
    cell.read()
}

/// Relies on volatile::Volatile::write: a volatile store of the given value,
/// which the compiler may not reorder or elide.
#[verifier::external_body]
fn vol_write(cell: &mut volatile::Volatile<ScreenChar>, value: ScreenChar)
    ensures
        vol_val(*final(cell)) == value,
{
    cell.write(value)
}

/// The characters a row of volatile cells holds.
pub open spec fn row_view(row: Vec<volatile::Volatile<ScreenChar>>) -> Seq<ScreenChar> {
    row@.map(|i: int, c: volatile::Volatile<ScreenChar>| vol_val(c))
}

/// The display grid: `BUFFER_HEIGHT` rows of `BUFFER_WIDTH` volatile cells.
/// Its view is the grid of characters the cells hold.
pub struct Buffer {
    pub chars: Vec<Vec<volatile::Volatile<ScreenChar>>>,
}

impl View for Buffer {
    type V = Seq<Seq<ScreenChar>>;

    open spec fn view(&self) -> Seq<Seq<ScreenChar>> {
        self.chars@.map(|i: int, r: Vec<volatile::Volatile<ScreenChar>>| row_view(r))
    }
}

/// A blank cell: a space in the given attribute.
pub open spec fn blank_char(color: ColorCode) -> ScreenChar {
    ScreenChar { ascii_char: 0x20, color_code: color }
}

/// A full row of blank cells in the given attribute.
pub open spec fn blank_row(color: ColorCode) -> Seq<ScreenChar> {
    Seq::new(BUFFER_WIDTH as nat, |c: int| blank_char(color))
}

/// A whole grid of blank cells in the given attribute.
pub open spec fn blank_grid(color: ColorCode) -> Seq<Seq<ScreenChar>> {
    Seq::new(BUFFER_HEIGHT as nat, |r: int| blank_row(color))
}

impl Buffer {
    /// The grid has exactly `BUFFER_HEIGHT` rows of `BUFFER_WIDTH` cells.
    pub open spec fn wf(&self) -> bool {
        &&& self.chars@.len() == BUFFER_HEIGHT
        &&& forall|r: int|
            0 <= r < BUFFER_HEIGHT ==> #[trigger] self.chars@[r]@.len() == BUFFER_WIDTH
    }

    /// A fresh grid, every cell blank in the given attribute.
    pub fn new_blank(color: ColorCode) -> (b: Buffer)
        ensures
            b.wf(),
            b@ == blank_grid(color),
    {
        let mut chars: Vec<Vec<volatile::Volatile<ScreenChar>>> = Vec::new();
        let mut r: usize = 0;
        while r < BUFFER_HEIGHT
            invariant
                r <= BUFFER_HEIGHT,
                chars@.len() == r,
                forall|i: int| 0 <= i < r ==> #[trigger] chars@[i]@.len() == BUFFER_WIDTH,
                forall|i: int| 0 <= i < r ==> #[trigger] row_view(chars@[i]) == blank_row(color),
            decreases BUFFER_HEIGHT - r,
        {
            let mut rowv: Vec<volatile::Volatile<ScreenChar>> = Vec::new();
            let mut c: usize = 0;
            while c < BUFFER_WIDTH
                invariant
                    c <= BUFFER_WIDTH,
                    rowv@.len() == c,
                    forall|j: int| 0 <= j < c ==> vol_val(#[trigger] rowv@[j]) == blank_char(color),
                decreases BUFFER_WIDTH - c,
            {
                let cell = vol_new(ScreenChar { ascii_char: 0x20, color_code: color });
                rowv.push(cell);
                c = c + 1;
            }
            proof {
                assert(row_view(rowv) =~= blank_row(color));
            }
            chars.push(rowv);
            r = r + 1;
        }
        let b = Buffer { chars };
        proof {
            assert(b@ =~= blank_grid(color));
        }
        b
    }

    /// Reads the cell at `(row, col)`.
    pub fn read_cell(&self, row: usize, col: usize) -> (r: ScreenChar)
        requires
            self.wf(),
            row < BUFFER_HEIGHT,
            col < BUFFER_WIDTH,
        ensures
            r == self@[row as int][col as int],
    {
        vol_read(&self.chars[row][col])
    }

    /// Writes `cell` at `(row, col)`, leaving every other cell unchanged.
    pub fn write_cell(&mut self, row: usize, col: usize, cell: ScreenChar)
        requires
            old(self).wf(),
            row < BUFFER_HEIGHT,
            col < BUFFER_WIDTH,
        ensures
            final(self).wf(),
            final(self)@ == old(self)@.update(
                row as int,
                old(self)@[row as int].update(col as int, cell),
            ),
    {
        vol_write(&mut self.chars[row][col], cell);
        proof {
            assert(row_view(self.chars@[row as int]) =~= old(self)@[row as int].update(
                col as int,
                cell,
            ));
            assert(self@ =~= old(self)@.update(
                row as int,
                old(self)@[row as int].update(col as int, cell),
            ));
        }
    }
}

/// The mathematical state of a writer: cursor column, current attribute,
/// and the grid of characters on screen.
pub ghost struct WriterView {
    pub col: int,
    pub color: ColorCode,
    pub grid: Seq<Seq<ScreenChar>>,
}

impl WriterView {
    /// The grid has full shape and the cursor sits within the row (the
    /// position one past the last column is allowed between writes).
    pub open spec fn wf(self) -> bool {
        &&& self.grid.len() == BUFFER_HEIGHT
        &&& (forall|r: int|
            0 <= r < BUFFER_HEIGHT ==> #[trigger] self.grid[r].len() == BUFFER_WIDTH)
        &&& 0 <= self.col <= BUFFER_WIDTH
    }
}

/// The grid after one scroll: every row moves up one place, the old top row
/// is discarded, and the bottom row becomes blank in the given attribute.
pub open spec fn scrolled(grid: Seq<Seq<ScreenChar>>, color: ColorCode) -> Seq<Seq<ScreenChar>> {
    Seq::new(
        BUFFER_HEIGHT as nat,
        |r: int|
            if r < BUFFER_HEIGHT - 1 {
                grid[r + 1]
            } else {
                blank_row(color)
            },
    )
}

/// A writer after its `new_line` step: scrolled grid, cursor back at
/// column zero.
pub open spec fn scroll(v: WriterView) -> WriterView {
    WriterView { col: 0, color: v.color, grid: scrolled(v.grid, v.color) }
}

/// A writer after placing `byte` at the cursor on the bottom row.
pub open spec fn place_byte(v: WriterView, byte: u8) -> WriterView {
    WriterView {
        col: v.col + 1,
        color: v.color,
        grid: v.grid.update(
            BUFFER_HEIGHT - 1,
            v.grid[BUFFER_HEIGHT - 1].update(
                v.col,
                ScreenChar { ascii_char: byte, color_code: v.color },
            ),
        ),
    }
}

/// What `write_byte` does: a newline scrolls; any other byte is placed at
/// the cursor, after a scroll when the row is already full.
pub open spec fn write_byte_spec(v: WriterView, byte: u8) -> WriterView {
    if byte == 0x0a {
        scroll(v)
    } else if v.col >= BUFFER_WIDTH {
        place_byte(scroll(v), byte)
    } else {
        place_byte(v, byte)
    }
}

/// The sanitisation rule for text: printable ASCII and newline pass through;
/// every other byte becomes the sentinel glyph `0xfe`.
pub open spec fn sanitize_byte(byte: u8) -> u8 {
    if (0x20 <= byte && byte <= 0x7e) || byte == 0x0a {
        byte
    } else {
        0xfe
    }
}

/// What writing a whole byte string does: each byte is sanitised and then
/// written in turn.
pub open spec fn write_bytes_spec(v: WriterView, bytes: Seq<u8>) -> WriterView
    decreases bytes.len(),
{
    if bytes.len() == 0 {
        v
    } else {
        write_bytes_spec(write_byte_spec(v, sanitize_byte(bytes[0])), bytes.skip(1))
    }
}

/// The writer: cursor column, current attribute, and the owned grid of
/// volatile cells. New characters always land on the bottom row; older
/// content scrolls upward.
pub struct Writer {
    pub column_position: usize,
    pub color_code: ColorCode,
    pub buffer: Buffer,
}

impl View for Writer {
    type V = WriterView;

    open spec fn view(&self) -> WriterView {
        WriterView {
            col: self.column_position as int,
            color: self.color_code,
            grid: self.buffer@,
        }
    }
}

impl Writer {
    /// The grid is full-shaped and the cursor is at most one past the row.
    pub open spec fn wf(&self) -> bool {
        &&& self.buffer.wf()
        &&& self.column_position <= BUFFER_WIDTH
    }

    /// A fresh writer over a blank grid, cursor at column zero.
    pub fn new(color_code: ColorCode) -> (w: Writer)
        ensures
            w.wf(),
            w@ == (WriterView { col: 0, color: color_code, grid: blank_grid(color_code) }),
    {
        Writer { column_position: 0, color_code, buffer: Buffer::new_blank(color_code) }
    }

    /// Writes one byte: a newline starts a new line; anything else is placed
    /// at the cursor with the current attribute, scrolling first if the
    /// bottom row is already full.
    pub fn write_byte(&mut self, byte: u8)
        requires
            old(self).wf(),
        ensures
            final(self).wf(),
            final(self)@ == write_byte_spec(old(self)@, byte),
    {
        if byte == 0x0a {
            self.new_line();
        } else {
            if self.column_position >= BUFFER_WIDTH {
                self.new_line();
            }
            let row = BUFFER_HEIGHT - 1;
            let col = self.column_position;
            let color_code = self.color_code;
            self.buffer.write_cell(row, col, ScreenChar { ascii_char: byte, color_code });
            self.column_position = self.column_position + 1;
        }
    }

    /// Writes a whole string byte by byte, sanitising each byte first: the
    /// final state is `write_bytes_spec` of the string's bytes.
    pub fn write_str(&mut self, s: &str)
        requires
            old(self).wf(),
        ensures
            final(self).wf(),
            final(self)@ == write_bytes_spec(old(self)@, s.spec_bytes()),
    {
        let bytes = s.as_bytes();
        let mut i: usize = 0;
        while i < bytes.len()
            invariant
                self.wf(),
                i <= bytes@.len(),
                bytes@ == s.spec_bytes(),
                self@ == write_bytes_spec(old(self)@, bytes@.take(i as int)),
            decreases bytes@.len() - i,
        {
            let byte = bytes[i];
            proof {
                assert(bytes@.take(i + 1) =~= bytes@.take(i as int).push(bytes@[i as int]));
                lemma_write_bytes_snoc(old(self)@, bytes@.take(i as int), bytes@[i as int]);
            }
            if (0x20 <= byte && byte <= 0x7e) || byte == 0x0a {
                self.write_byte(byte);
            } else {
                self.write_byte(0xfe);
            }
            i = i + 1;
        }
        proof {
            assert(bytes@.take(bytes@.len() as int) =~= bytes@);
        }
    }

    /// Shifts every row up by one, discarding the old top row, blanks the
    /// bottom row in the current attribute, and resets the cursor.
    pub fn new_line(&mut self)
        requires
            old(self).wf(),
        ensures
            final(self).wf(),
            final(self)@ == scroll(old(self)@),
    {
        let ghost g0 = self.buffer@;
        let mut row: usize = 1;
        while row < BUFFER_HEIGHT
            invariant
                self.wf(),
                1 <= row <= BUFFER_HEIGHT,
                self.color_code == old(self).color_code,
                self.column_position == old(self).column_position,
                g0.len() == BUFFER_HEIGHT,
                forall|i: int| 0 <= i < BUFFER_HEIGHT ==> #[trigger] g0[i].len() == BUFFER_WIDTH,
                forall|i: int| 0 <= i < row - 1 ==> #[trigger] self.buffer@[i] == g0[i + 1],
                forall|i: int|
                    row - 1 <= i < BUFFER_HEIGHT ==> #[trigger] self.buffer@[i] == g0[i],
            decreases BUFFER_HEIGHT - row,
        {
            let mut col: usize = 0;
            while col < BUFFER_WIDTH
                invariant
                    self.wf(),
                    1 <= row < BUFFER_HEIGHT,
                    col <= BUFFER_WIDTH,
                    self.color_code == old(self).color_code,
                    self.column_position == old(self).column_position,
                    forall|i: int| 0 <= i < row - 1 ==> #[trigger] self.buffer@[i] == g0[i + 1],
                    forall|i: int|
                        row <= i < BUFFER_HEIGHT ==> #[trigger] self.buffer@[i] == g0[i],
                    forall|j: int|
                        0 <= j < col ==> #[trigger] self.buffer@[row - 1][j] == g0[row as int][j],
                    forall|j: int|
                        col <= j < BUFFER_WIDTH ==> #[trigger] self.buffer@[row - 1][j] == g0[row
                            - 1][j],
                decreases BUFFER_WIDTH - col,
            {
                let character = self.buffer.read_cell(row, col);
                self.buffer.write_cell(row - 1, col, character);
                col = col + 1;
            }
            proof {
                assert(self.buffer@[row - 1] =~= g0[row as int]);
            }
            row = row + 1;
        }
        self.clear_row(BUFFER_HEIGHT - 1);
        self.column_position = 0;
        proof {
            assert(self@.grid =~= scrolled(g0, old(self).color_code));
        }
    }

    /// Fills row `row` with blank cells in the current attribute.
    pub fn clear_row(&mut self, row: usize)
        requires
            old(self).wf(),
            row < BUFFER_HEIGHT,
        ensures
            final(self).wf(),
            final(self)@.col == old(self)@.col,
            final(self)@.color == old(self)@.color,
            final(self)@.grid == old(self)@.grid.update(row as int, blank_row(old(self)@.color)),
    {
        let blank = ScreenChar { ascii_char: 0x20, color_code: self.color_code };
        let ghost g0 = self.buffer@;
        let mut col: usize = 0;
        while col < BUFFER_WIDTH
            invariant
                self.wf(),
                row < BUFFER_HEIGHT,
                col <= BUFFER_WIDTH,
                self.color_code == old(self).color_code,
                self.column_position == old(self).column_position,
                blank == blank_char(old(self)@.color),
                forall|i: int|
                    0 <= i < BUFFER_HEIGHT && i != row ==> #[trigger] self.buffer@[i] == g0[i],
                forall|j: int|
                    0 <= j < col ==> #[trigger] self.buffer@[row as int][j] == blank_char(
                        old(self)@.color,
                    ),
                forall|j: int|
                    col <= j < BUFFER_WIDTH
                        ==> #[trigger] self.buffer@[row as int][j] == g0[row as int][j],
            decreases BUFFER_WIDTH - col,
        {
            self.buffer.write_cell(row, col, blank);
            col = col + 1;
        }
        proof {
            assert(self.buffer@[row as int] =~= blank_row(old(self)@.color));
            assert(self.buffer@ =~= g0.update(row as int, blank_row(old(self)@.color)));
        }
    }
}

/// Writing one more byte after a string is writing the string and then the
/// byte: the step case of `write_bytes_spec`, read from the right.
pub proof fn lemma_write_bytes_snoc(v: WriterView, bytes: Seq<u8>, b: u8)
    ensures
        write_bytes_spec(v, bytes.push(b)) == write_byte_spec(
            write_bytes_spec(v, bytes),
            sanitize_byte(b),
        ),
    decreases bytes.len(),
{
    if bytes.len() == 0 {
        assert(bytes.push(b)[0] == b);
        assert(bytes.push(b).skip(1) =~= Seq::<u8>::empty());
        assert(write_bytes_spec(v, bytes.push(b)) == write_bytes_spec(
            write_byte_spec(v, sanitize_byte(b)),
            Seq::<u8>::empty(),
        ));
        assert(write_bytes_spec(v, bytes) == v);
    } else {
        let v1 = write_byte_spec(v, sanitize_byte(bytes[0]));
        assert(bytes.push(b)[0] == bytes[0]);
        assert(bytes.push(b).skip(1) =~= bytes.skip(1).push(b));
        lemma_write_bytes_snoc(v1, bytes.skip(1), b);
        assert(write_bytes_spec(v, bytes.push(b)) == write_bytes_spec(
            v1,
            bytes.skip(1).push(b),
        ));
        assert(write_bytes_spec(v, bytes) == write_bytes_spec(v1, bytes.skip(1)));
    }
}

/// Writing any single byte keeps the writer well formed.
pub proof fn lemma_write_byte_wf(v: WriterView, byte: u8)
    requires
        v.wf(),
    ensures
        write_byte_spec(v, byte).wf(),
{
    assert forall|r: int|
        0 <= r < BUFFER_HEIGHT implies #[trigger] scrolled(v.grid, v.color)[r].len()
        == BUFFER_WIDTH by {
        if r < BUFFER_HEIGHT - 1 {
            assert(v.grid[r + 1].len() == BUFFER_WIDTH);
        }
    }
}

/// Writing printable bytes that fit on the rest of the bottom row never
/// scrolls: it fills the cells from the cursor onward with exactly those
/// bytes in the current attribute, advances the cursor by their number, and
/// touches nothing else.
pub proof fn lemma_printable_fill(v: WriterView, bytes: Seq<u8>)
    requires
        v.wf(),
        v.col + bytes.len() <= BUFFER_WIDTH,
        forall|i: int| 0 <= i < bytes.len() ==> 0x20 <= #[trigger] bytes[i] <= 0x7e,
    ensures
        write_bytes_spec(v, bytes).wf(),
        write_bytes_spec(v, bytes).col == v.col + bytes.len(),
        write_bytes_spec(v, bytes).color == v.color,
        forall|r: int|
            0 <= r < BUFFER_HEIGHT - 1 ==> #[trigger] write_bytes_spec(v, bytes).grid[r]
                == v.grid[r],
        forall|j: int|
            0 <= j < v.col || v.col + bytes.len() <= j < BUFFER_WIDTH
                ==> #[trigger] write_bytes_spec(v, bytes).grid[BUFFER_HEIGHT - 1][j] == v.grid[
                BUFFER_HEIGHT - 1][j],
        forall|i: int|
            0 <= i < bytes.len() ==> #[trigger] write_bytes_spec(v, bytes).grid[BUFFER_HEIGHT
                - 1][v.col + i] == (ScreenChar { ascii_char: bytes[i], color_code: v.color }),
    decreases bytes.len(),
{
    if bytes.len() > 0 {
        let b0 = bytes[0];
        assert(sanitize_byte(b0) == b0);
        assert(v.col < BUFFER_WIDTH);
        let v1 = write_byte_spec(v, b0);
        assert(v1 == place_byte(v, b0));
        lemma_write_byte_wf(v, b0);
        assert(forall|i: int|
            0 <= i < bytes.skip(1).len() ==> 0x20 <= #[trigger] bytes.skip(1)[i] <= 0x7e);
        lemma_printable_fill(v1, bytes.skip(1));
        let w = write_bytes_spec(v, bytes);
        assert(w == write_bytes_spec(v1, bytes.skip(1)));
        assert forall|i: int|
            0 <= i < bytes.len() implies #[trigger] w.grid[BUFFER_HEIGHT - 1][v.col + i]
            == (ScreenChar { ascii_char: bytes[i], color_code: v.color }) by {
            if i == 0 {
                assert(v1.grid[BUFFER_HEIGHT - 1][v.col] == ScreenChar {
                    ascii_char: b0,
                    color_code: v.color,
                });
                assert(w.grid[BUFFER_HEIGHT - 1][v.col] == v1.grid[BUFFER_HEIGHT - 1][v.col]);
            } else {
                assert(bytes.skip(1)[i - 1] == bytes[i]);
                assert(w.grid[BUFFER_HEIGHT - 1][v1.col + (i - 1)] == (ScreenChar {
                    ascii_char: bytes.skip(1)[i - 1],
                    color_code: v1.color,
                }));
            }
        }
    }
}

/// Law: writing `c` printable bytes to a freshly cleared writer leaves the
/// cursor at column `c`, for every `c` below the row width.
pub proof fn lemma_cleared_column_counts_bytes(v: WriterView, bytes: Seq<u8>)
    requires
        v.wf(),
        v.col == 0,
        bytes.len() < BUFFER_WIDTH,
        forall|i: int| 0 <= i < bytes.len() ==> 0x20 <= #[trigger] bytes[i] <= 0x7e,
    ensures
        write_bytes_spec(v, bytes).col == bytes.len(),
{
    lemma_printable_fill(v, bytes);
}

/// Law: a printable string shorter than the row, written at the start of the
/// bottom row, is stored verbatim, every cell carrying the attribute the
/// writer had at the time of the write.
pub proof fn lemma_bottom_row_round_trip(v: WriterView, bytes: Seq<u8>)
    requires
        v.wf(),
        v.col == 0,
        bytes.len() < BUFFER_WIDTH,
        forall|i: int| 0 <= i < bytes.len() ==> 0x20 <= #[trigger] bytes[i] <= 0x7e,
    ensures
        forall|i: int|
            0 <= i < bytes.len() ==> #[trigger] write_bytes_spec(v, bytes).grid[BUFFER_HEIGHT
                - 1][i] == (ScreenChar { ascii_char: bytes[i], color_code: v.color }),
{
    lemma_printable_fill(v, bytes);
    assert forall|i: int|
        0 <= i < bytes.len() implies #[trigger] write_bytes_spec(v, bytes).grid[BUFFER_HEIGHT
        - 1][i] == (ScreenChar { ascii_char: bytes[i], color_code: v.color }) by {
        assert(write_bytes_spec(v, bytes).grid[BUFFER_HEIGHT - 1][v.col + i] == (ScreenChar {
            ascii_char: bytes[i],
            color_code: v.color,
        }));
    }
}

/// Law: writing a printable-ASCII string shorter than the row to a freshly
/// cleared writer stores the string's characters verbatim on the bottom row,
/// each cell carrying the attribute the writer had at the time of the write.
pub proof fn lemma_str_bottom_row_round_trip(v: WriterView, s: &str)
    requires
        v.wf(),
        v.col == 0,
        s@.len() < BUFFER_WIDTH,
        forall|i: int| 0 <= i < s@.len() ==> ' ' <= #[trigger] s@[i] <= '~',
    ensures
        s.spec_bytes().len() == s@.len(),
        forall|i: int|
            0 <= i < s@.len() ==> #[trigger] write_bytes_spec(v, s.spec_bytes()).grid[
                BUFFER_HEIGHT - 1][i] == (ScreenChar {
                ascii_char: s@[i] as u8,
                color_code: v.color,
            }),
{
    assert(vstd::utf8::is_ascii_chars(s@));
    vstd::utf8::is_ascii_chars_encode_utf8(s@);
    let bytes = s.spec_bytes();
    assert(bytes.len() == s@.len());
    assert forall|i: int| 0 <= i < bytes.len() implies 0x20 <= #[trigger] bytes[i] <= 0x7e by {
        assert(s@[i] as u8 == bytes[i]);
    }
    lemma_bottom_row_round_trip(v, bytes);
    assert forall|i: int|
        0 <= i < s@.len() implies #[trigger] write_bytes_spec(v, bytes).grid[BUFFER_HEIGHT
        - 1][i] == (ScreenChar { ascii_char: s@[i] as u8, color_code: v.color }) by {
        assert(s@[i] as u8 == bytes[i]);
        assert(write_bytes_spec(v, bytes).grid[BUFFER_HEIGHT - 1][i] == (ScreenChar {
            ascii_char: bytes[i],
            color_code: v.color,
        }));
    }
}

/// Law: a byte that is neither printable ASCII nor a newline is sanitised to
/// the sentinel glyph `0xfe`, and the cell just behind the new cursor holds
/// that sentinel, never the byte itself.
pub proof fn lemma_unprintable_byte_sanitized(v: WriterView, b: u8)
    requires
        v.wf(),
        b != 0x0a,
        b < 0x20 || b > 0x7e,
    ensures
        sanitize_byte(b) == 0xfe,
        ({
            let w = write_bytes_spec(v, seq![b]);
            w.grid[BUFFER_HEIGHT - 1][w.col - 1] == (ScreenChar {
                ascii_char: 0xfe,
                color_code: v.color,
            })
        }),
{
    let w = write_bytes_spec(v, seq![b]);
    assert(seq![b].len() == 1);
    assert(seq![b][0] == b);
    assert(sanitize_byte(b) == 0xfe);
    let v1 = write_byte_spec(v, 0xfe);
    assert(seq![b].skip(1) =~= Seq::<u8>::empty());
    assert(w == write_bytes_spec(v1, seq![b].skip(1)));
    assert(write_bytes_spec(v1, Seq::<u8>::empty()) == v1);
    assert(w == write_byte_spec(v, 0xfe));
    if v.col >= BUFFER_WIDTH {
        assert(w == place_byte(scroll(v), 0xfe));
    } else {
        assert(w == place_byte(v, 0xfe));
    }
}

/// Law: scrolling shifts every row up by one place — row `r` afterwards is
/// what row `r + 1` was before — and leaves the bottom row blank in the
/// writer's attribute, with the cursor back at column zero.
pub proof fn lemma_scroll_shifts_rows(v: WriterView)
    requires
        v.wf(),
    ensures
        scroll(v).wf(),
        scroll(v).col == 0,
        scroll(v).color == v.color,
        forall|r: int|
            0 <= r < BUFFER_HEIGHT - 1 ==> #[trigger] scroll(v).grid[r] == v.grid[r + 1],
        forall|c: int|
            0 <= c < BUFFER_WIDTH ==> #[trigger] scroll(v).grid[BUFFER_HEIGHT - 1][c]
                == blank_char(v.color),
{
    lemma_write_byte_wf(v, 0x0a);
    assert(write_byte_spec(v, 0x0a) == scroll(v));
}

} // verus!
