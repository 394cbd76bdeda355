use vstd::prelude::*;
use volatile::Volatile;
use vstd::string::StringSliceAdditionalSpecFns;
use crate::port::{port_write, PortWrite};

verus! {

pub const BUFFER_HEIGHT: usize = 25;

pub const BUFFER_WIDTH: usize = 80;

/// Number of cells on the display.
pub const BUFFER_CELLS: usize = 2000;

/// Index/data port pair of the display controller used to move the hardware cursor.
pub const CURSOR_INDEX_PORT: u16 = 0x3D4;

pub const CURSOR_DATA_PORT: u16 = 0x3D5;

/// The sixteen text-mode colors, in the order of their hardware numbers.
#[derive(Debug, Clone, Copy, PartialEq, Eq, Structural)]
pub enum Color {
    Black,
    Blue,
    Green,
    Cyan,
    Red,
    Magenta,
    Brown,
    LightGray,
    DarkGray,
    LightBlue,
    LightGreen,
    LightCyan,
    LightRed,
    Pink,
    Yellow,
    White,
}

impl Color {
    /// The 4-bit hardware number of the color.
    pub open spec fn spec_value(self) -> u8 {
        match self {
            Color::Black => 0,
            Color::Blue => 1,
            Color::Green => 2,
            Color::Cyan => 3,
            Color::Red => 4,
            Color::Magenta => 5,
            Color::Brown => 6,
            Color::LightGray => 7,
            Color::DarkGray => 8,
            Color::LightBlue => 9,
            Color::LightGreen => 10,
            Color::LightCyan => 11,
            Color::LightRed => 12,
            Color::Pink => 13,
            Color::Yellow => 14,
            Color::White => 15,
        }
    }

    pub fn value(self) -> (r: u8)
        ensures
            r == self.spec_value(),
            r < 16,
    {
        match self {
            Color::Black => 0,
            Color::Blue => 1,
            Color::Green => 2,
            Color::Cyan => 3,
            Color::Red => 4,
            Color::Magenta => 5,
            Color::Brown => 6,
            Color::LightGray => 7,
            Color::DarkGray => 8,
            Color::LightBlue => 9,
            Color::LightGreen => 10,
            Color::LightCyan => 11,
            Color::LightRed => 12,
            Color::Pink => 13,
            Color::Yellow => 14,
            Color::White => 15,
        }
    }
}

/// A color attribute byte: background in the high nibble, foreground in the low one.
#[derive(Debug, Clone, Copy, PartialEq, Eq, Structural)]
pub struct ColorCode(pub u8);

impl ColorCode {
    pub fn new(foreground: Color, background: Color) -> (r: ColorCode)
        ensures
            r.0 == background.spec_value() * 16 + foreground.spec_value(),
    {
        let f = foreground.value();
        let b = background.value();
        assert((b << 4u8) | f == b * 16 + f) by (bit_vector)
            requires
                b < 16,
                f < 16,
        ;
        ColorCode((b << 4u8) | f)
    }
}

/// One display cell: a character byte and its color attribute.
#[derive(Debug, Clone, Copy, PartialEq, Eq, Structural)]
pub struct ScreenChar {
    pub ascii_character: u8,
    pub color_code: ColorCode,
}

/// A cell of volatile memory, from the volatile crate.
#[verifier::external_type_specification]
#[verifier::external_body]
#[verifier::reject_recursive_types(T)]
pub struct ExVolatile<T: Copy>(Volatile<T>);

/// What a volatile display cell currently holds.
pub uninterp spec fn cell_contents(v: Volatile<ScreenChar>) -> ScreenChar;

/// Relies on volatile::Volatile::write: after it the cell holds `c`.
#[verifier::external_body]
fn write_cell(v: &mut Volatile<ScreenChar>, c: ScreenChar)
    ensures
        cell_contents(*final(v)) == c,
{
    v.write(c)
}

/// Relies on volatile::Volatile::read: it returns what the cell holds.
#[verifier::external_body]
fn read_cell(v: &Volatile<ScreenChar>) -> (r: ScreenChar)
    ensures
        r == cell_contents(*v),
{
    v.read()
}

/// The text display: rows of volatile cells, so that no write to it is elided.
pub struct Buffer {
    pub chars: [[Volatile<ScreenChar>; BUFFER_WIDTH]; BUFFER_HEIGHT],
}

impl Buffer {
    /// The cells row by row: cell (row, col) is at `cell_index(row, col)`.
    pub open spec fn view(&self) -> Seq<ScreenChar> {
        Seq::new(BUFFER_CELLS as nat, |i: int| cell_contents(self.chars@[i / 80]@[i % 80]))
    }
}

/// Abstract state of the display: the cells row by row, and the cursor.
pub struct ScreenModel {
    pub cells: Seq<ScreenChar>,
    pub row: int,
    pub col: int,
}

impl ScreenModel {
    pub open spec fn wf(self) -> bool {
        &&& self.cells.len() == BUFFER_CELLS
        &&& 0 <= self.row < BUFFER_HEIGHT
        &&& 0 <= self.col < BUFFER_WIDTH
    }

    /// Linear index of the cursor's cell.
    pub open spec fn offset(self) -> int {
        self.row * BUFFER_WIDTH + self.col
    }
}

pub open spec fn cell_index(row: int, col: int) -> int {
    row * BUFFER_WIDTH + col
}

/// The row below `row`; the last row stays where it is (no scrolling).
pub open spec fn next_row(row: int) -> int {
    if row < BUFFER_HEIGHT - 1 {
        row + 1
    } else {
        row
    }
}

pub open spec fn line_feed(m: ScreenModel) -> ScreenModel {
    ScreenModel { cells: m.cells, row: next_row(m.row), col: 0 }
}

/// Effect of writing one byte: a line feed moves to the start of the next row;
/// any other byte is drawn at the cursor, which then advances one column, to
/// the start of the next row as soon as the column reaches the width.
pub open spec fn put_byte(m: ScreenModel, b: u8, color: ColorCode) -> ScreenModel {
    if b == LINE_FEED {
        line_feed(m)
    } else {
        let drawn = ScreenModel {
            cells: m.cells.update(
                cell_index(m.row, m.col),
                ScreenChar { ascii_character: b, color_code: color },
            ),
            row: m.row,
            col: m.col,
        };
        if m.col + 1 == BUFFER_WIDTH {
            line_feed(drawn)
        } else {
            ScreenModel { col: m.col + 1, ..drawn }
        }
    }
}

/// Effect of writing the bytes in order.
pub open spec fn put_bytes(m: ScreenModel, bs: Seq<u8>, color: ColorCode) -> ScreenModel
    decreases bs.len(),
{
    if bs.len() == 0 {
        m
    } else {
        put_byte(put_bytes(m, bs.drop_last(), color), bs.last(), color)
    }
}

pub open spec fn is_printable(b: u8) -> bool {
    0x20 <= b <= 0x7e
}

/// Printable bytes and line feeds are kept; anything else becomes the placeholder.
pub open spec fn sanitize(b: u8) -> u8 {
    if is_printable(b) || b == LINE_FEED {
        b
    } else {
        PLACEHOLDER
    }
}

/// Shown in place of a byte that is neither printable nor a line feed ('?').
pub const PLACEHOLDER: u8 = 0x3f;

pub const LINE_FEED: u8 = 0x0a;

pub const SPACE: u8 = 0x20;

pub open spec fn sanitized(bs: Seq<u8>) -> Seq<u8> {
    bs.map_values(|b: u8| sanitize(b))
}

/// Every cell blank in `color`, cursor at the top left.
pub open spec fn cleared(color: ColorCode) -> ScreenModel {
    ScreenModel {
        cells: Seq::new(BUFFER_CELLS as nat, |i: int| ScreenChar { ascii_character: SPACE, color_code: color }),
        row: 0,
        col: 0,
    }
}

/// Effect of erasing backwards: the cursor steps one cell back (to the end of
/// the previous row from column 0) and that cell is blanked.
pub open spec fn erase_back(m: ScreenModel, color: ColorCode) -> ScreenModel {
    let w = if m.col > 0 {
        ScreenModel { cells: m.cells, row: m.row, col: m.col - 1 }
    } else if m.row > 0 {
        ScreenModel { cells: m.cells, row: m.row - 1, col: BUFFER_WIDTH - 1 }
    } else {
        m
    };
    ScreenModel {
        cells: w.cells.update(
            cell_index(w.row, w.col),
            ScreenChar { ascii_character: SPACE, color_code: color },
        ),
        row: w.row,
        col: w.col,
    }
}

proof fn lemma_cell_index(i: int, row: int, col: int)
    requires
        0 <= i < BUFFER_CELLS,
        0 <= row < BUFFER_HEIGHT,
        0 <= col < BUFFER_WIDTH,
    ensures
        0 <= i / 80 < BUFFER_HEIGHT,
        0 <= i % 80 < BUFFER_WIDTH,
        (i / 80 == row && i % 80 == col) <==> i == cell_index(row, col),
        0 <= cell_index(row, col) < BUFFER_CELLS,
{
    assert(i == 80 * (i / 80) + i % 80 && 0 <= i % 80 < 80) by (nonlinear_arith)
        requires 0 <= i;
    assert(i == cell_index(row, col) ==> i / 80 == row && i % 80 == col) by (nonlinear_arith)
        requires
            i == 80 * (i / 80) + i % 80,
            0 <= i % 80 < 80,
            0 <= col < 80,
    {
        if i == row * 80 + col {
            vstd::arithmetic::div_mod::lemma_fundamental_div_mod_converse(i, 80, row, col);
        }
    }
}

/// Writes text to the display and tracks the cursor.
pub struct Writer {
    column_position: usize,
    row_position: usize,
    color_code: ColorCode,
    buffer: &'static mut Buffer,
}

impl Writer {
    pub closed spec fn view(&self) -> ScreenModel {
        ScreenModel {
            cells: self.buffer@,
            row: self.row_position as int,
            col: self.column_position as int,
        }
    }

    pub closed spec fn color(&self) -> ColorCode {
        self.color_code
    }

    pub closed spec fn wf(&self) -> bool {
        self.row_position < BUFFER_HEIGHT && self.column_position < BUFFER_WIDTH
    }

    /// A well-formed writer's display model is well formed.
    pub proof fn lemma_model_wf(&self)
        requires
            self.wf(),
        ensures
            self@.wf(),
    {
    }

    pub fn new(color_code: ColorCode, buffer: &'static mut Buffer) -> (r: Writer)
        ensures
            r.wf(),
            r.color() == color_code,
            r@ == (ScreenModel { cells: old(buffer)@, row: 0, col: 0 }),
    {
        Writer { column_position: 0, row_position: 0, color_code, buffer }
    }

    /// Draws `c` at (row, col).
    fn put_cell(&mut self, row: usize, col: usize, c: ScreenChar)
        requires
            old(self).wf(),
            row < BUFFER_HEIGHT,
            col < BUFFER_WIDTH,
        ensures
            final(self).wf(),
            final(self).color() == old(self).color(),
            final(self)@ == (ScreenModel {
                cells: old(self)@.cells.update(cell_index(row as int, col as int), c),
                ..old(self)@
            }),
    {
        write_cell(&mut self.buffer.chars[row][col], c);
        proof {
            assert forall|i: int| 0 <= i < BUFFER_CELLS implies #[trigger] self@.cells[i]
                == old(self)@.cells.update(cell_index(row as int, col as int), c)[i] by {
                lemma_cell_index(i, row as int, col as int);
            }
            assert(self@.cells =~= old(self)@.cells.update(cell_index(row as int, col as int), c));
        }
    }

    fn new_line(&mut self) -> (r: Vec<PortWrite>)
        requires
            old(self).row_position < BUFFER_HEIGHT,
        ensures
            final(self).wf(),
            final(self).color() == old(self).color(),
            final(self)@ == line_feed(old(self)@),
            r@ == cursor_port_writes(final(self)@.offset()),
    {
        if self.row_position < BUFFER_HEIGHT - 1 {
            self.row_position += 1;
        }
        self.column_position = 0;
        proof {
            assert(self@.cells =~= old(self)@.cells);
        }
        self.cursor_writes()
    }

    /// Writes one byte at the cursor; a line feed starts the next row instead.
    /// Returns the port writes that move the hardware cursor to the new place.
    pub fn write_byte(&mut self, byte: u8) -> (r: Vec<PortWrite>)
        requires
            old(self).wf(),
        ensures
            final(self).wf(),
            final(self).color() == old(self).color(),
            final(self)@ == put_byte(old(self)@, byte, old(self).color()),
            r@ == cursor_port_writes(final(self)@.offset()),
    {
        if byte == LINE_FEED {
            self.new_line()
        } else {
            let row = self.row_position;
            let col = self.column_position;
            let c = ScreenChar { ascii_character: byte, color_code: self.color_code };
            self.put_cell(row, col, c);
            // read back, so the write is observed before the cursor moves on
            let _ = read_cell(&self.buffer.chars[row][col]);
            if col + 1 == BUFFER_WIDTH {
                self.new_line()
            } else {
                self.column_position = col + 1;
                self.cursor_writes()
            }
        }
    }

    /// Writes the bytes in order, each sanitized. Returns the port writes that
    /// move the hardware cursor to its final place.
    pub fn write_bytes(&mut self, bytes: &[u8]) -> (r: Vec<PortWrite>)
        requires
            old(self).wf(),
        ensures
            final(self).wf(),
            final(self).color() == old(self).color(),
            final(self)@ == put_bytes(old(self)@, sanitized(bytes@), old(self).color()),
            r@ == cursor_port_writes(final(self)@.offset()),
    {
        let mut i: usize = 0;
        while i < bytes.len()
            invariant
                self.wf(),
                self.color() == old(self).color(),
                0 <= i <= bytes@.len(),
                self@ == put_bytes(old(self)@, sanitized(bytes@.take(i as int)), old(self).color()),
            decreases bytes@.len() - i,
        {
            let b = bytes[i];
            let shown = if (0x20 <= b && b <= 0x7e) || b == LINE_FEED {
                b
            } else {
                PLACEHOLDER
            };
            self.write_byte(shown);
            proof {
                let next = sanitized(bytes@.take(i + 1));
                assert(next.drop_last() =~= sanitized(bytes@.take(i as int)));
                assert(next.last() == shown);
            }
            i += 1;
        }
        proof {
            assert(bytes@.take(i as int) =~= bytes@);
        }
        self.cursor_writes()
    }

    /// Writes the string's bytes in order; those that are neither printable
    /// ASCII nor a line feed are shown as the placeholder.
    pub fn write_string(&mut self, s: &str) -> (r: Vec<PortWrite>)
        requires
            old(self).wf(),
        ensures
            final(self).wf(),
            final(self).color() == old(self).color(),
            final(self)@ == put_bytes(old(self)@, sanitized(s.spec_bytes()), old(self).color()),
            r@ == cursor_port_writes(final(self)@.offset()),
    {
        self.write_bytes(s.as_bytes())
    }

    /// Writes the string, then a line feed.
    pub fn write_line(&mut self, s: &str) -> (r: Vec<PortWrite>)
        requires
            old(self).wf(),
        ensures
            final(self).wf(),
            final(self).color() == old(self).color(),
            final(self)@ == line_feed(
                put_bytes(old(self)@, sanitized(s.spec_bytes()), old(self).color()),
            ),
            r@ == cursor_port_writes(final(self)@.offset()),
    {
        self.write_string(s);
        self.write_byte(LINE_FEED)
    }

    /// Blanks every cell in the writer's color and moves the cursor home.
    pub fn clear_screen(&mut self) -> (r: Vec<PortWrite>)
        requires
            old(self).wf(),
        ensures
            final(self).wf(),
            final(self).color() == old(self).color(),
            final(self)@ == cleared(old(self).color()),
            r@ == cursor_port_writes(0),
    {
        let blank = ScreenChar { ascii_character: SPACE, color_code: self.color_code };
        let mut row: usize = 0;
        while row < BUFFER_HEIGHT
            invariant
                self.wf(),
                self.color() == old(self).color(),
                blank == (ScreenChar { ascii_character: SPACE, color_code: old(self).color() }),
                row <= BUFFER_HEIGHT,
                forall|i: int| 0 <= i < row * BUFFER_WIDTH ==> #[trigger] self@.cells[i] == blank,
            decreases BUFFER_HEIGHT - row,
        {
            let mut col: usize = 0;
            while col < BUFFER_WIDTH
                invariant
                    self.wf(),
                    self.color() == old(self).color(),
                    blank == (ScreenChar { ascii_character: SPACE, color_code: old(self).color() }),
                    row < BUFFER_HEIGHT,
                    col <= BUFFER_WIDTH,
                    forall|i: int| 0 <= i < row * BUFFER_WIDTH + col ==> #[trigger] self@.cells[i] == blank,
                decreases BUFFER_WIDTH - col,
            {
                self.put_cell(row, col, blank);
                col += 1;
            }
            row += 1;
        }
        proof {
            assert(self@.cells =~= cleared(old(self).color()).cells);
        }
        self.row_position = 0;
        self.column_position = 0;
        self.cursor_writes()
    }

    /// Steps the cursor back one cell (to the end of the previous row from
    /// column 0) and blanks that cell. At the top left it blanks that cell.
    pub fn backspace_on_vga(&mut self) -> (r: Vec<PortWrite>)
        requires
            old(self).wf(),
        ensures
            final(self).wf(),
            final(self).color() == old(self).color(),
            final(self)@ == erase_back(old(self)@, old(self).color()),
            r@ == cursor_port_writes(final(self)@.offset()),
    {
        if self.column_position > 0 {
            self.column_position -= 1;
        } else if self.row_position > 0 {
            self.row_position -= 1;
            self.column_position = BUFFER_WIDTH - 1;
        }
        let row = self.row_position;
        let col = self.column_position;
        let blank = ScreenChar { ascii_character: SPACE, color_code: self.color_code };
        self.put_cell(row, col, blank);
        self.cursor_writes()
    }

    /// Reads back the cell at (row, col).
    pub fn read_char(&self, row: usize, col: usize) -> (r: ScreenChar)
        requires
            row < BUFFER_HEIGHT,
            col < BUFFER_WIDTH,
        ensures
            r == self@.cells[cell_index(row as int, col as int)],
    {
        proof {
            lemma_cell_index(cell_index(row as int, col as int), row as int, col as int);
        }
        read_cell(&self.buffer.chars[row][col])
    }

    pub fn row_position(&self) -> (r: usize)
        ensures
            r == self@.row,
    {
        self.row_position
    }

    pub fn column_position(&self) -> (r: usize)
        ensures
            r == self@.col,
    {
        self.column_position
    }

    pub fn color_code(&self) -> (r: ColorCode)
        ensures
            r == self.color(),
    {
        self.color_code
    }

    /// The port writes that move the hardware cursor to this writer's cursor.
    pub fn cursor_writes(&self) -> (r: Vec<PortWrite>)
        requires
            self.wf(),
        ensures
            r@ == cursor_port_writes(self@.offset()),
    {
        update_cursor(self.row_position, self.column_position)
    }
}

/// Port writes that place the hardware cursor at linear offset `pos`:
/// low byte under index 0x0F, high byte under index 0x0E.
pub open spec fn cursor_port_writes(pos: int) -> Seq<PortWrite> {
    seq![
        PortWrite { port: CURSOR_INDEX_PORT, value: 0x0F },
        PortWrite { port: CURSOR_DATA_PORT, value: (pos % 256) as u8 },
        PortWrite { port: CURSOR_INDEX_PORT, value: 0x0E },
        PortWrite { port: CURSOR_DATA_PORT, value: (pos / 256) as u8 },
    ]
}

/// The port writes that move the hardware cursor to (row, col).
pub fn update_cursor(row: usize, col: usize) -> (r: Vec<PortWrite>)
    requires
        row < BUFFER_HEIGHT,
        col <= BUFFER_WIDTH,
    ensures
        r@ == cursor_port_writes(cell_index(row as int, col as int)),
{
    let pos: u16 = (row * BUFFER_WIDTH + col) as u16;
    let low = (pos & 0xFF) as u8;
    let high = ((pos >> 8u16) & 0xFF) as u8;
    assert(low == pos % 256 && high == pos / 256) by (bit_vector)
        requires
            low == (pos & 0xFF) as u8,
            high == ((pos >> 8u16) & 0xFF) as u8,
    ;
    let mut r: Vec<PortWrite> = Vec::new();
    r.push(port_write(CURSOR_INDEX_PORT, 0x0F));
    r.push(port_write(CURSOR_DATA_PORT, low));
    r.push(port_write(CURSOR_INDEX_PORT, 0x0E));
    r.push(port_write(CURSOR_DATA_PORT, high));
    proof {
        assert(r@ =~= cursor_port_writes(cell_index(row as int, col as int)));
    }
    r
}

proof fn lemma_sanitized_printable(bs: Seq<u8>)
    requires
        forall|i: int| 0 <= i < bs.len() ==> is_printable(#[trigger] bs[i]),
    ensures
        sanitized(bs) == bs,
{
    assert(sanitized(bs) =~= bs);
}

/// Writing printable bytes puts each one, in the given color, in the next
/// cell from the cursor on (row by row), so that reading the cells back gives
/// the bytes again; no other cell changes and the cursor ends just after the
/// last byte, provided the bytes end before the display's last cell.
pub proof fn lemma_write_round_trip(m: ScreenModel, bs: Seq<u8>, color: ColorCode)
    requires
        m.wf(),
        forall|i: int| 0 <= i < bs.len() ==> is_printable(#[trigger] bs[i]),
        m.offset() + bs.len() < BUFFER_CELLS,
    ensures
        put_bytes(m, sanitized(bs), color).wf(),
        put_bytes(m, sanitized(bs), color).offset() == m.offset() + bs.len(),
        forall|i: int|
            0 <= i < bs.len() ==> #[trigger] put_bytes(m, sanitized(bs), color).cells[m.offset() + i]
                == (ScreenChar { ascii_character: bs[i], color_code: color }),
        forall|j: int|
            0 <= j < BUFFER_CELLS && !(m.offset() <= j < m.offset() + bs.len())
                ==> #[trigger] put_bytes(m, sanitized(bs), color).cells[j] == m.cells[j],
    decreases bs.len(),
{
    lemma_sanitized_printable(bs);
    if bs.len() > 0 {
        let init = bs.drop_last();
        lemma_write_round_trip(m, init, color);
        lemma_sanitized_printable(init);
        let p = put_bytes(m, init, color);
        assert(bs.drop_last() == init);
        assert(put_bytes(m, bs, color) == put_byte(p, bs.last(), color));
    }
}

/// A line feed inside the text starts the next row: text written after it
/// begins at column 0 of the row below, and the row before keeps its text.
pub proof fn lemma_write_two_lines(
    m: ScreenModel,
    first: Seq<u8>,
    second: Seq<u8>,
    color: ColorCode,
)
    requires
        m.wf(),
        m.row < BUFFER_HEIGHT - 1,
        forall|i: int| 0 <= i < first.len() ==> is_printable(#[trigger] first[i]),
        forall|i: int| 0 <= i < second.len() ==> is_printable(#[trigger] second[i]),
        m.col + first.len() < BUFFER_WIDTH,
        second.len() < BUFFER_WIDTH,
    ensures
        ({
            let r = put_bytes(m, sanitized(first + seq![LINE_FEED] + second), color);
            &&& r.row == m.row + 1
            &&& r.col == second.len()
            &&& forall|i: int|
                0 <= i < first.len() ==> #[trigger] r.cells[m.offset() + i]
                    == (ScreenChar { ascii_character: first[i], color_code: color })
            &&& forall|i: int|
                0 <= i < second.len() ==> #[trigger] r.cells[cell_index(m.row + 1, i)]
                    == (ScreenChar { ascii_character: second[i], color_code: color })
        }),
{
    let with_lf = first + seq![LINE_FEED];
    let all = with_lf + second;
    assert(sanitized(all) =~= sanitized(with_lf) + sanitized(second));
    lemma_put_bytes_append(m, sanitized(with_lf), sanitized(second), color);
    assert(sanitized(with_lf).drop_last() =~= sanitized(first));
    lemma_write_round_trip(m, first, color);
    let p = put_bytes(m, sanitized(first), color);
    let q = line_feed(p);
    assert(put_bytes(m, sanitized(with_lf), color) == q);
    lemma_write_round_trip(q, second, color);
    assert forall|i: int| 0 <= i < first.len() implies #[trigger] put_bytes(m, sanitized(all), color).cells[m.offset() + i]
        == (ScreenChar { ascii_character: first[i], color_code: color }) by {
        assert(p.cells[m.offset() + i] == (ScreenChar { ascii_character: first[i], color_code: color }));
        assert(q.offset() <= m.offset() + i < q.offset() + second.len() ==> false);
    }
    assert forall|i: int| 0 <= i < second.len() implies #[trigger] put_bytes(m, sanitized(all), color).cells[cell_index(m.row + 1, i)]
        == (ScreenChar { ascii_character: second[i], color_code: color }) by {
        assert(cell_index(m.row + 1, i) == q.offset() + i);
    }
}

/// Writing two byte sequences one after the other is writing their concatenation.
pub proof fn lemma_put_bytes_append(m: ScreenModel, a: Seq<u8>, b: Seq<u8>, color: ColorCode)
    ensures
        put_bytes(m, a + b, color) == put_bytes(put_bytes(m, a, color), b, color),
    decreases b.len(),
{
    if b.len() == 0 {
        assert(a + b =~= a);
    } else {
        assert((a + b).drop_last() =~= a + b.drop_last());
        lemma_put_bytes_append(m, a, b.drop_last(), color);
    }
}

} // verus!
