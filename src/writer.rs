use vstd::prelude::*;
use vstd::string::StringSliceAdditionalSpecFns;
use crate::color::{ACHColor, ACHColorCode};
use crate::grid::{grid_shaped, uniform_row, ACHBuffer, ACHCharacter, BUFFER_HEIGHT, BUFFER_WIDTH};

verus! {

/// The glyph drawn in place of a byte that cannot be shown.
pub const PLACEHOLDER: u8 = 0xfe;

/// The newline control code.
pub const NEWLINE: u8 = 0x0a;

/// The glyph of a blank cell.
pub const SPACE: u8 = 0x20;

/// A byte in the printable ASCII range.
pub open spec fn is_printable(b: u8) -> bool {
    0x20 <= b <= 0x7e
}

/// The byte that text output hands to the cell writer for `b`.
pub open spec fn shown(b: u8) -> u8 {
    if b == NEWLINE || is_printable(b) {
        b
    } else {
        PLACEHOLDER
    }
}

/// A blank cell in the given color.
pub open spec fn blank(color: ACHColorCode) -> ACHCharacter {
    ACHCharacter { ascii: SPACE, color }
}

/// The grid moved up one row, with a blank row entering at the bottom.
pub open spec fn scrolled(g: Seq<Seq<ACHCharacter>>, color: ACHColorCode) -> Seq<Seq<ACHCharacter>> {
    g.drop_first().push(uniform_row(blank(color)))
}

/// What a writer holds: the cursor column, the attribute and the grid.
pub struct Screen {
    pub column: nat,
    pub color: ACHColorCode,
    pub grid: Seq<Seq<ACHCharacter>>,
}

impl Screen {
    /// The cursor stays within one past the last column and the grid has its
    /// fixed dimensions.
    pub open spec fn wf(self) -> bool {
        &&& self.column <= BUFFER_WIDTH
        &&& grid_shaped(self.grid)
    }
}

/// The state after a scroll: contents up one row, cursor at column 0.
pub open spec fn after_new_line(s: Screen) -> Screen {
    Screen { column: 0, color: s.color, grid: scrolled(s.grid, s.color) }
}

/// The state after writing one byte to the cell writer.
pub open spec fn after_byte(s: Screen, byte: u8) -> Screen {
    if byte == NEWLINE {
        after_new_line(s)
    } else {
        let t = if s.column >= BUFFER_WIDTH {
            after_new_line(s)
        } else {
            s
        };
        let bottom = BUFFER_HEIGHT - 1;
        Screen {
            column: t.column + 1,
            color: t.color,
            grid: t.grid.update(
                bottom,
                t.grid[bottom].update(t.column as int, ACHCharacter { ascii: byte, color: t.color }),
            ),
        }
    }
}

/// The state after writing a byte string, each byte replaced by `shown`.
pub open spec fn after_text(s: Screen, bytes: Seq<u8>) -> Screen
    decreases bytes.len(),
{
    if bytes.len() == 0 {
        s
    } else {
        after_byte(after_text(s, bytes.drop_last()), shown(bytes.last()))
    }
}

/// The state after `n` scrolls.
pub open spec fn scrolls(s: Screen, n: nat) -> Screen
    decreases n,
{
    if n == 0 {
        s
    } else {
        after_new_line(scrolls(s, (n - 1) as nat))
    }
}

/// The cells that a run of bytes fills, in the given color.
pub open spec fn row_of(bytes: Seq<u8>, color: ACHColorCode) -> Seq<ACHCharacter> {
    Seq::new(bytes.len(), |j: int| ACHCharacter { ascii: bytes[j], color })
}

/// The text-buffer writer: owns the grid and the cursor, and appends text on
/// the bottom row.
pub struct ACHWriter {
    column: usize,
    color: ACHColorCode,
    buffer: ACHBuffer,
}

impl View for ACHWriter {
    type V = Screen;

    closed spec fn view(&self) -> Screen {
        Screen { column: self.column as nat, color: self.color, grid: self.buffer@ }
    }
}

impl ACHWriter {
    /// The writer's state is well formed.
    pub open spec fn wf(&self) -> bool {
        self@.wf()
    }

    /// A writer at column 0 with the given colors, over a grid of blank cells.
    pub fn new(foreground: ACHColor, background: ACHColor) -> (r: ACHWriter)
        ensures
            r.wf(),
            r@.column == 0,
            r@.color == ACHColorCode(ACHColorCode::packed(foreground, background)),
            r@.grid == Seq::new(BUFFER_HEIGHT as nat, |i: int| uniform_row(blank(r@.color))),
    {
        let color = ACHColorCode::new(foreground, background);
        let buffer = ACHBuffer::new(ACHCharacter { ascii: SPACE, color });
        ACHWriter { column: 0, color, buffer }
    }

    /// The cursor column.
    pub fn column(&self) -> (r: usize)
        ensures
            r == self@.column,
    {
        self.column
    }

    /// The color attribute of every cell this writer writes.
    pub fn color(&self) -> (r: ACHColorCode)
        ensures
            r == self@.color,
    {
        self.color
    }

    /// The cell at (`row`, `col`).
    pub fn cell(&self, row: usize, col: usize) -> (r: ACHCharacter)
        requires
            self.wf(),
            row < BUFFER_HEIGHT,
            col < BUFFER_WIDTH,
        ensures
            r == self@.grid[row as int][col as int],
    {
        self.buffer.read(row, col)
    }

    /// Overwrites every cell of `row` with a blank cell.
    pub fn clear_row(&mut self, row: usize)
        requires
            old(self).wf(),
            row < BUFFER_HEIGHT,
        ensures
            final(self).wf(),
            final(self)@ == (Screen {
                grid: old(self)@.grid.update(row as int, uniform_row(blank(old(self)@.color))),
                ..old(self)@
            }),
    {
        let blank = ACHCharacter { ascii: SPACE, color: self.color };
        let mut col: usize = 0;
        while col < BUFFER_WIDTH
            invariant
                self.buffer.wf(),
                self.column == old(self).column,
                self.color == old(self).color,
                blank == crate::writer::blank(self.color),
                row < BUFFER_HEIGHT,
                col <= BUFFER_WIDTH,
                forall|i: int| 0 <= i < BUFFER_HEIGHT && i != row ==> self.buffer@[i] == old(self).buffer@[i],
                forall|j: int| 0 <= j < col ==> self.buffer@[row as int][j] == blank,
                forall|j: int| col <= j < BUFFER_WIDTH ==> self.buffer@[row as int][j] == old(self).buffer@[row as int][j],
            decreases BUFFER_WIDTH - col,
        {
            self.buffer.write(row, col, blank);
            col = col + 1;
        }
        assert(self.buffer@[row as int] =~= uniform_row(blank));
        assert(self.buffer@ =~= old(self).buffer@.update(row as int, uniform_row(blank)));
    }
    /// Scrolls: each row from the second down is copied over the row above it,
    /// the bottom row is cleared and the cursor returns to column 0.
    pub fn new_line(&mut self)
        requires
            old(self).wf(),
        ensures
            final(self).wf(),
            final(self)@ == after_new_line(old(self)@),
    {
        let mut row: usize = 1;
        while row < BUFFER_HEIGHT
            invariant
                1 <= row <= BUFFER_HEIGHT,
                self.buffer.wf(),
                self.column == old(self).column,
                self.color == old(self).color,
                forall|i: int| 0 <= i < row - 1 ==> self.buffer@[i] == old(self).buffer@[i + 1],
                forall|i: int| row - 1 <= i < BUFFER_HEIGHT ==> self.buffer@[i] == old(self).buffer@[i],
            decreases BUFFER_HEIGHT - row,
        {
            let mut col: usize = 0;
            while col < BUFFER_WIDTH
                invariant
                    1 <= row < BUFFER_HEIGHT,
                    col <= BUFFER_WIDTH,
                    self.buffer.wf(),
                    self.column == old(self).column,
                    self.color == old(self).color,
                    forall|i: int| 0 <= i < row - 1 ==> self.buffer@[i] == old(self).buffer@[i + 1],
                    forall|i: int| row <= i < BUFFER_HEIGHT ==> self.buffer@[i] == old(self).buffer@[i],
                    forall|j: int| 0 <= j < col ==> #[trigger] self.buffer@[row - 1][j] == old(self).buffer@[row as int][j],
                    forall|j: int| col <= j < BUFFER_WIDTH ==> #[trigger] self.buffer@[row - 1][j] == old(self).buffer@[row - 1][j],
                decreases BUFFER_WIDTH - col,
            {
                let c = self.buffer.read(row, col);
                self.buffer.write(row - 1, col, c);
                col = col + 1;
            }
            assert(self.buffer@[row - 1] =~= old(self).buffer@[row as int]);
            row = row + 1;
        }
        self.clear_row(BUFFER_HEIGHT - 1);
        self.column = 0;
        assert(self.buffer@ =~= scrolled(old(self).buffer@, self.color));
    }

    /// Writes one byte: a newline scrolls; any other byte is stored as a glyph
    /// at the cursor on the bottom row, after a scroll if the row is full, and
    /// the cursor advances.
    pub fn write_byte(&mut self, byte: u8)
        requires
            old(self).wf(),
        ensures
            final(self).wf(),
            final(self)@ == after_byte(old(self)@, byte),
    {
        if byte == NEWLINE {
            self.new_line();
        } else {
            if self.column >= BUFFER_WIDTH {
                self.new_line();
            }
            let row = BUFFER_HEIGHT - 1;
            self.buffer.write(row, self.column, ACHCharacter { ascii: byte, color: self.color });
            self.column = self.column + 1;
        }
    }

    /// Writes the bytes of `s` in order; a byte that is neither printable nor a
    /// newline is written as `PLACEHOLDER`.
    pub fn write_string(&mut self, s: &str)
        requires
            old(self).wf(),
        ensures
            final(self).wf(),
            final(self)@ == after_text(old(self)@, s.spec_bytes()),
    {
        let bytes = s.as_bytes();
        let mut i: usize = 0;
        while i < bytes.len()
            invariant
                i <= bytes@.len(),
                bytes@ == s.spec_bytes(),
                self.wf(),
                self@ == after_text(old(self)@, bytes@.take(i as int)),
            decreases bytes@.len() - i,
        {
            let b = bytes[i];
            if b == NEWLINE || (0x20 <= b && b <= 0x7e) {
                self.write_byte(b);
            } else {
                self.write_byte(PLACEHOLDER);
            }
            assert(bytes@.take(i + 1).drop_last() =~= bytes@.take(i as int));
            i = i + 1;
        }
        assert(bytes@.take(i as int) =~= bytes@);
    }
}

/// Writes already formatted text through `writer`.
pub fn _print(writer: &mut ACHWriter, text: &str)
    requires
        old(writer).wf(),
    ensures
        final(writer).wf(),
        final(writer)@ == after_text(old(writer)@, text.spec_bytes()),
{
    writer.write_string(text);
}

} // verus!
