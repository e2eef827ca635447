//! The mathematical model of the screen: cell format, grid geometry, and
//! the transition functions that say exactly what each write does.

use vstd::prelude::*;

use crate::color::ColorCode;

verus! {

/// Number of rows of the character grid.
pub const BUFFER_HEIGHT: usize = 25;

/// Number of columns of the character grid.
pub const BUFFER_WIDTH: usize = 80;

/// The line-feed control byte: the one byte that scrolls instead of
/// occupying a cell.
pub const LINE_FEED: u8 = 0x0a;

/// The glyph written in place of any byte outside the printable range.
pub const SUBSTITUTE_BYTE: u8 = 0xfe;

/// The blank byte a cleared cell holds.
pub const SPACE: u8 = 0x20;

/// One cell of the grid, in exactly the per-cell layout the display
/// hardware reads: the ASCII byte, then the attribute byte.
#[derive(Debug, Clone, Copy, PartialEq, Eq, Structural)]
pub struct ScreenChar {
    pub ascii_character: u8,
    pub color_code: ColorCode,
}

/// True of the bytes in the printable ASCII range, which pass through the
/// translation of [`translate_byte`] unchanged.
pub open spec fn is_printable(b: u8) -> bool {
    0x20 <= b <= 0x7e
}

/// What a byte fed to the string writer becomes before it reaches the
/// grid: printable bytes and the line feed pass unchanged, everything
/// else is replaced by the substitution glyph.
pub open spec fn translate_byte(b: u8) -> u8 {
    if is_printable(b) || b == LINE_FEED {
        b
    } else {
        SUBSTITUTE_BYTE
    }
}

/// A grid of full height whose rows all have full width.
pub open spec fn grid_wf(grid: Seq<Seq<ScreenChar>>) -> bool {
    &&& grid.len() == BUFFER_HEIGHT
    &&& forall|r: int| 0 <= r < BUFFER_HEIGHT ==> (#[trigger] grid[r]).len() == BUFFER_WIDTH
}

/// A cleared cell: a space in the given attribute.
pub open spec fn blank_char(color: ColorCode) -> ScreenChar {
    ScreenChar { ascii_character: SPACE, color_code: color }
}

/// A whole row of cleared cells in the given attribute.
pub open spec fn blank_row(color: ColorCode) -> Seq<ScreenChar> {
    Seq::new(BUFFER_WIDTH as nat, |c: int| blank_char(color))
}

/// The grid after one scroll: every row moves up one place, the top row
/// is discarded, and the new bottom row is cleared in the given attribute.
pub open spec fn scrolled(grid: Seq<Seq<ScreenChar>>, color: ColorCode) -> Seq<Seq<ScreenChar>> {
    Seq::new(
        BUFFER_HEIGHT as nat,
        |r: int| if r + 1 < BUFFER_HEIGHT { grid[r + 1] } else { blank_row(color) },
    )
}

/// The grid with the one cell at `(row, col)` replaced by `cell`.
pub open spec fn written(
    grid: Seq<Seq<ScreenChar>>,
    row: int,
    col: int,
    cell: ScreenChar,
) -> Seq<Seq<ScreenChar>> {
    grid.update(row, grid[row].update(col, cell))
}

/// The full abstract state of a writer: cursor column, active attribute,
/// and the contents of the grid.
#[verifier::ext_equal]
pub struct WriterView {
    pub col: nat,
    pub color: ColorCode,
    pub grid: Seq<Seq<ScreenChar>>,
}

impl WriterView {
    /// Well-formedness: the grid has its fixed dimensions and the cursor
    /// never lies beyond the end of a row.
    pub open spec fn wf(self) -> bool {
        &&& grid_wf(self.grid)
        &&& self.col <= BUFFER_WIDTH
    }
}

/// The state after one byte is written.
///
/// A line feed scrolls and resets the column without occupying a cell.
/// Any other byte first scrolls if the bottom row is full, then lands in
/// the bottom row at the cursor column, in the active attribute, and the
/// cursor advances by one.
pub open spec fn step_byte(v: WriterView, b: u8) -> WriterView {
    if b == LINE_FEED {
        WriterView { col: 0, color: v.color, grid: scrolled(v.grid, v.color) }
    } else {
        let start = if v.col >= BUFFER_WIDTH {
            WriterView { col: 0, color: v.color, grid: scrolled(v.grid, v.color) }
        } else {
            v
        };
        WriterView {
            col: (start.col + 1) as nat,
            color: start.color,
            grid: written(
                start.grid,
                BUFFER_HEIGHT - 1,
                start.col as int,
                ScreenChar { ascii_character: b, color_code: start.color },
            ),
        }
    }
}

/// The state after a whole byte sequence is written through the
/// translation: each byte in order is translated by [`translate_byte`]
/// and then applied by [`step_byte`].
pub open spec fn step_bytes(v: WriterView, s: Seq<u8>) -> WriterView
    decreases s.len(),
{
    if s.len() == 0 {
        v
    } else {
        step_bytes(step_byte(v, translate_byte(s[0])), s.drop_first())
    }
}

/// Writing `s` and then one more byte is writing `s.push(b)`.
pub proof fn lemma_step_bytes_push(v: WriterView, s: Seq<u8>, b: u8)
    ensures
        step_bytes(v, s.push(b)) == step_byte(step_bytes(v, s), translate_byte(b)),
    decreases s.len(),
{
    if s.len() == 0 {
        assert(s.push(b)[0] == b);
        assert(s.push(b).drop_first() =~= Seq::<u8>::empty());
        assert(step_bytes(v, s.push(b)) == step_bytes(
            step_byte(v, translate_byte(b)),
            s.push(b).drop_first(),
        ));
        assert(step_bytes(step_byte(v, translate_byte(b)), Seq::<u8>::empty()) == step_byte(
            v,
            translate_byte(b),
        ));
    } else {
        assert(s.push(b)[0] == s[0]);
        assert(s.push(b).drop_first() =~= s.drop_first().push(b));
        lemma_step_bytes_push(step_byte(v, translate_byte(s[0])), s.drop_first(), b);
        assert(step_bytes(v, s.push(b)) == step_bytes(
            step_byte(v, translate_byte(s[0])),
            s.drop_first().push(b),
        ));
    }
}

} // verus!
