//! The output driver: the owned character grid, the cursor, and the
//! write, wrap and scroll operations, each proved against the transition
//! functions of [`crate::screen`].

use vstd::prelude::*;
use vstd::string::StringSliceAdditionalSpecFns;

use crate::color::{Color, ColorCode};
use crate::screen::{
    blank_char, blank_row, grid_wf, scrolled, step_byte, step_bytes, written, lemma_step_bytes_push,
    ScreenChar, WriterView, BUFFER_HEIGHT, BUFFER_WIDTH, LINE_FEED, SPACE, SUBSTITUTE_BYTE,
};

verus! {

/// The fixed 25-by-80 grid of cells the writer renders into.
///
/// On the running machine this storage aliases the memory-mapped buffer of
/// the display controller; here it is owned storage with the same layout,
/// and presenting it to the device is the embedder's concern.
pub struct Buffer {
    chars: Vec<Vec<ScreenChar>>,
}

impl View for Buffer {
    type V = Seq<Seq<ScreenChar>>;

    closed spec fn view(&self) -> Seq<Seq<ScreenChar>> {
        self.chars@.map_values(|row: Vec<ScreenChar>| row@)
    }
}

impl Buffer {
    /// Reads the cell at `(row, col)`.
    fn get_char(&self, row: usize, col: usize) -> (cell: ScreenChar)
        requires
            grid_wf(self@),
            row < BUFFER_HEIGHT,
            col < BUFFER_WIDTH,
        ensures
            cell == self@[row as int][col as int],
    {
        proof {
            assert(self@[row as int] == self.chars@[row as int]@);
        }
        self.chars[row][col]
    }

    /// Replaces the cell at `(row, col)` by `cell`.
    fn put_char(&mut self, row: usize, col: usize, cell: ScreenChar)
        requires
            grid_wf(old(self)@),
            row < BUFFER_HEIGHT,
            col < BUFFER_WIDTH,
        ensures
            grid_wf(final(self)@),
            final(self)@ == written(old(self)@, row as int, col as int, cell),
    {
        proof {
            assert(self@[row as int] == self.chars@[row as int]@);
        }
        self.chars[row][col] = cell;
        proof {
            assert(self@ =~= written(old(self)@, row as int, col as int, cell));
        }
    }
}

/// The state a fresh writer starts in: cursor at column 0, yellow on
/// black, and a fully cleared grid in that attribute.
pub open spec fn initial_view() -> WriterView {
    WriterView {
        col: 0,
        color: ColorCode::spec_new(Color::Yellow, Color::Black),
        grid: Seq::new(
            BUFFER_HEIGHT as nat,
            |r: int| blank_row(ColorCode::spec_new(Color::Yellow, Color::Black)),
        ),
    }
}

/// The output driver: owns the grid, the cursor column, and the attribute
/// applied to every byte written while it is active.
///
/// No operation of the writer can fail: every byte value, in every state,
/// produces the defined next state.
pub struct Writer {
    column_position: usize,
    color_code: ColorCode,
    buffer: Buffer,
}

impl View for Writer {
    type V = WriterView;

    closed spec fn view(&self) -> WriterView {
        WriterView {
            col: self.column_position as nat,
            color: self.color_code,
            grid: self.buffer@,
        }
    }
}

impl Writer {
    /// A freshly initialized writer: cleared grid, cursor at column 0,
    /// yellow on black.
    pub fn new() -> (writer: Writer)
        ensures
            writer@ == initial_view(),
            writer@.wf(),
    {
        let color_code = ColorCode::new(Color::Yellow, Color::Black);
        let blank = ScreenChar { ascii_character: SPACE, color_code };
        let mut chars: Vec<Vec<ScreenChar>> = Vec::new();
        while chars.len() < BUFFER_HEIGHT
            invariant
                chars@.len() <= BUFFER_HEIGHT,
                blank == blank_char(color_code),
                forall|r: int|
                    0 <= r < chars@.len() ==> (#[trigger] chars@[r])@ == blank_row(color_code),
            decreases BUFFER_HEIGHT - chars@.len(),
        {
            let mut row: Vec<ScreenChar> = Vec::new();
            while row.len() < BUFFER_WIDTH
                invariant
                    row@.len() <= BUFFER_WIDTH,
                    blank == blank_char(color_code),
                    forall|c: int| 0 <= c < row@.len() ==> row@[c] == blank_char(color_code),
                decreases BUFFER_WIDTH - row@.len(),
            {
                row.push(blank);
                proof {
                    assert forall|c: int| 0 <= c < row@.len() implies row@[c] == blank_char(
                        color_code,
                    ) by {
                        if c == row@.len() - 1 {
                            assert(row@[c] == blank);
                        }
                    }
                }
            }
            proof {
                assert(row@ =~= blank_row(color_code));
            }
            chars.push(row);
        }
        let writer = Writer { column_position: 0, color_code, buffer: Buffer { chars } };
        proof {
            assert(writer@.grid =~= initial_view().grid);
            assert(writer@ =~= initial_view());
        }
        writer
    }

    /// The column the next non-control byte will land in.
    pub fn column_position(&self) -> (col: usize)
        ensures
            col == self@.col,
    {
        self.column_position
    }

    /// The attribute currently applied to written bytes.
    pub fn color_code(&self) -> (code: ColorCode)
        ensures
            code == self@.color,
    {
        self.color_code
    }

    /// The cell at `(row, col)` of the grid.
    pub fn char_at(&self, row: usize, col: usize) -> (cell: ScreenChar)
        requires
            self@.wf(),
            row < BUFFER_HEIGHT,
            col < BUFFER_WIDTH,
        ensures
            cell == self@.grid[row as int][col as int],
    {
        self.buffer.get_char(row, col)
    }

    /// Changes the attribute applied to bytes written from now on; cells
    /// already written keep the attribute they were written with.
    pub fn set_color(&mut self, foreground: Color, background: Color)
        ensures
            final(self)@ == (WriterView {
                color: ColorCode::spec_new(foreground, background),
                ..old(self)@
            }),
    {
        self.color_code = ColorCode::new(foreground, background);
    }

    /// Clears `row`: every cell becomes a space in the active attribute.
    fn clear_row(&mut self, row: usize)
        requires
            old(self)@.wf(),
            row < BUFFER_HEIGHT,
        ensures
            final(self)@.wf(),
            final(self)@.col == old(self)@.col,
            final(self)@.color == old(self)@.color,
            final(self)@.grid == old(self)@.grid.update(row as int, blank_row(old(self)@.color)),
    {
        let blank = ScreenChar { ascii_character: SPACE, color_code: self.color_code };
        let mut col: usize = 0;
        while col < BUFFER_WIDTH
            invariant
                self@.wf(),
                col <= BUFFER_WIDTH,
                row < BUFFER_HEIGHT,
                self@.col == old(self)@.col,
                self@.color == old(self)@.color,
                blank == blank_char(old(self)@.color),
                forall|r: int|
                    0 <= r < BUFFER_HEIGHT && r != row ==> self@.grid[r] == old(self)@.grid[r],
                forall|c: int| 0 <= c < col ==> self@.grid[row as int][c] == blank_char(old(self)@.color),
                forall|c: int|
                    col <= c < BUFFER_WIDTH ==> self@.grid[row as int][c] == old(
                        self,
                    )@.grid[row as int][c],
            decreases BUFFER_WIDTH - col,
        {
            self.buffer.put_char(row, col, blank);
            col += 1;
        }
        proof {
            assert(self@.grid[row as int] =~= blank_row(old(self)@.color));
            assert(self@.grid =~= old(self)@.grid.update(row as int, blank_row(old(self)@.color)));
        }
    }

    /// The scroll-and-reset step: shifts every row up by one, discarding
    /// the top row, clears the bottom row in the active attribute, and
    /// resets the cursor to column 0.
    fn new_line(&mut self)
        requires
            old(self)@.wf(),
        ensures
            final(self)@.wf(),
            final(self)@ == (WriterView {
                col: 0,
                color: old(self)@.color,
                grid: scrolled(old(self)@.grid, old(self)@.color),
            }),
    {
        let mut row: usize = 1;
        while row < BUFFER_HEIGHT
            invariant
                self@.wf(),
                1 <= row <= BUFFER_HEIGHT,
                self@.col == old(self)@.col,
                self@.color == old(self)@.color,
                forall|r: int| 0 <= r < row - 1 ==> self@.grid[r] == old(self)@.grid[r + 1],
                forall|r: int|
                    row - 1 <= r < BUFFER_HEIGHT ==> self@.grid[r] == old(self)@.grid[r],
            decreases BUFFER_HEIGHT - row,
        {
            let mut col: usize = 0;
            while col < BUFFER_WIDTH
                invariant
                    self@.wf(),
                    1 <= row < BUFFER_HEIGHT,
                    col <= BUFFER_WIDTH,
                    self@.col == old(self)@.col,
                    self@.color == old(self)@.color,
                    forall|r: int| 0 <= r < row - 1 ==> self@.grid[r] == old(self)@.grid[r + 1],
                    forall|r: int|
                        row <= r < BUFFER_HEIGHT ==> self@.grid[r] == old(self)@.grid[r],
                    forall|c: int|
                        0 <= c < col ==> (#[trigger] self@.grid[row - 1][c]) == old(
                            self,
                        )@.grid[row as int][c],
                    forall|c: int|
                        col <= c < BUFFER_WIDTH ==> (#[trigger] self@.grid[row - 1][c]) == old(
                            self,
                        )@.grid[row - 1][c],
                decreases BUFFER_WIDTH - col,
            {
                let character = self.buffer.get_char(row, col);
                self.buffer.put_char(row - 1, col, character);
                col += 1;
            }
            proof {
                assert(self@.grid[row - 1] =~= old(self)@.grid[row as int]);
            }
            row += 1;
        }
        self.clear_row(BUFFER_HEIGHT - 1);
        self.column_position = 0;
        proof {
            assert(self@.grid =~= scrolled(old(self)@.grid, old(self)@.color));
            assert(self@ =~= (WriterView {
                col: 0,
                color: old(self)@.color,
                grid: scrolled(old(self)@.grid, old(self)@.color),
            }));
        }
    }

    /// Writes one byte, untranslated.
    ///
    /// A line feed scrolls and resets the cursor without occupying a cell;
    /// any other byte value lands in the bottom row at the cursor column in
    /// the active attribute (scrolling first if that row is full) and
    /// advances the cursor.
    pub fn write_byte(&mut self, byte: u8)
        requires
            old(self)@.wf(),
        ensures
            final(self)@.wf(),
            final(self)@ == step_byte(old(self)@, byte),
    {
        if byte == LINE_FEED {
            self.new_line();
        } else {
            if self.column_position >= BUFFER_WIDTH {
                self.new_line();
            }
            let row = BUFFER_HEIGHT - 1;
            let col = self.column_position;
            let color_code = self.color_code;
            self.buffer.put_char(row, col, ScreenChar { ascii_character: byte, color_code });
            self.column_position = col + 1;
            proof {
                assert(self@ =~= step_byte(old(self)@, byte));
            }
        }
    }

    /// Writes a byte sequence in order through the translation: printable
    /// bytes and the line feed pass to [`Writer::write_byte`] unchanged,
    /// every other byte is replaced by the substitution glyph. One cell is
    /// filled per non-line-feed byte; no byte value faults.
    pub fn write_bytes(&mut self, s: &[u8])
        requires
            old(self)@.wf(),
        ensures
            final(self)@.wf(),
            final(self)@ == step_bytes(old(self)@, s@),
    {
        let n = s.len();
        let mut i: usize = 0;
        while i < n
            invariant
                self@.wf(),
                i <= n,
                n == s@.len(),
                self@ == step_bytes(old(self)@, s@.take(i as int)),
            decreases n - i,
        {
            let byte = s[i];
            if (0x20 <= byte && byte <= 0x7e) || byte == LINE_FEED {
                self.write_byte(byte);
            } else {
                self.write_byte(SUBSTITUTE_BYTE);
            }
            proof {
                assert(s@.take(i + 1) =~= s@.take(i as int).push(s@[i as int]));
                lemma_step_bytes_push(old(self)@, s@.take(i as int), s@[i as int]);
            }
            i += 1;
        }
        proof {
            assert(s@.take(n as int) =~= s@);
        }
    }

    /// Writes the bytes of `s` through the same translation as
    /// [`Writer::write_bytes`].
    pub fn write_string(&mut self, s: &str)
        requires
            old(self)@.wf(),
        ensures
            final(self)@.wf(),
            final(self)@ == step_bytes(old(self)@, s.spec_bytes()),
    {
        self.write_bytes(s.as_bytes());
    }
}

} // verus!
