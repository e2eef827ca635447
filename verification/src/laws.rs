//! General properties of the driver, proved once and for all over the
//! transition model of [`crate::screen`].

use vstd::prelude::*;

use crate::color::ColorCode;
use crate::screen::{
    blank_row, grid_wf, is_printable, scrolled, step_byte, step_bytes, translate_byte, written,
    ScreenChar, WriterView, BUFFER_HEIGHT, BUFFER_WIDTH, LINE_FEED, SUBSTITUTE_BYTE,
};

verus! {

/// The translation table, stated exhaustively: a printable byte or the
/// line feed reaches the grid unchanged; every other byte value becomes
/// the substitution glyph.
pub proof fn lemma_translate_table(b: u8)
    ensures
        is_printable(b) || b == LINE_FEED ==> translate_byte(b) == b,
        !(is_printable(b) || b == LINE_FEED) ==> translate_byte(b) == SUBSTITUTE_BYTE,
{
}

/// A scroll of a well-formed grid is well formed.
pub proof fn lemma_scrolled_wf(grid: Seq<Seq<ScreenChar>>, color: ColorCode)
    requires
        grid_wf(grid),
    ensures
        grid_wf(scrolled(grid, color)),
{
    assert forall|r: int| 0 <= r < BUFFER_HEIGHT implies (#[trigger] scrolled(grid, color)[r]).len()
        == BUFFER_WIDTH by {
        if r + 1 < BUFFER_HEIGHT {
            assert(scrolled(grid, color)[r] == grid[r + 1]);
        } else {
            assert(scrolled(grid, color)[r] == blank_row(color));
        }
    }
}

/// A single-cell write to a well-formed grid keeps it well formed.
pub proof fn lemma_written_wf(grid: Seq<Seq<ScreenChar>>, row: int, col: int, cell: ScreenChar)
    requires
        grid_wf(grid),
        0 <= row < BUFFER_HEIGHT,
        0 <= col < BUFFER_WIDTH,
    ensures
        grid_wf(written(grid, row, col, cell)),
{
    assert forall|r: int|
        0 <= r < BUFFER_HEIGHT implies (#[trigger] written(grid, row, col, cell)[r]).len()
        == BUFFER_WIDTH by {
        if r == row {
            assert(written(grid, row, col, cell)[r] == grid[row].update(col, cell));
        } else {
            assert(written(grid, row, col, cell)[r] == grid[r]);
        }
    }
}

/// Every single-byte step keeps the writer well formed.
pub proof fn lemma_step_byte_wf(v: WriterView, b: u8)
    requires
        v.wf(),
    ensures
        step_byte(v, b).wf(),
{
    lemma_scrolled_wf(v.grid, v.color);
    if b != LINE_FEED {
        if v.col >= BUFFER_WIDTH {
            lemma_written_wf(scrolled(v.grid, v.color), BUFFER_HEIGHT - 1, 0, ScreenChar {
                ascii_character: b,
                color_code: v.color,
            });
        } else {
            lemma_written_wf(v.grid, BUFFER_HEIGHT - 1, v.col as int, ScreenChar {
                ascii_character: b,
                color_code: v.color,
            });
        }
    }
}

/// Every write of a byte sequence keeps the writer well formed.
pub proof fn lemma_step_bytes_wf(v: WriterView, s: Seq<u8>)
    requires
        v.wf(),
    ensures
        step_bytes(v, s).wf(),
    decreases s.len(),
{
    if s.len() > 0 {
        lemma_step_byte_wf(v, translate_byte(s[0]));
        lemma_step_bytes_wf(step_byte(v, translate_byte(s[0])), s.drop_first());
    }
}

/// Writing a byte sequence that holds no line feed and fits in the rest
/// of the bottom row fills consecutive cells of that row, left to right,
/// with the translated bytes in the attribute active at the time; the
/// cursor advances by the length, the attribute is unchanged, and every
/// other cell of the grid is untouched.
pub proof fn lemma_write_row(v: WriterView, s: Seq<u8>)
    requires
        v.wf(),
        forall|i: int| 0 <= i < s.len() ==> s[i] != LINE_FEED,
        v.col + s.len() <= BUFFER_WIDTH,
    ensures
        step_bytes(v, s).wf(),
        step_bytes(v, s).col == v.col + s.len(),
        step_bytes(v, s).color == v.color,
        forall|i: int|
            0 <= i < s.len() ==> #[trigger] step_bytes(v, s).grid[BUFFER_HEIGHT - 1][v.col + i]
                == (ScreenChar { ascii_character: translate_byte(s[i]), color_code: v.color }),
        forall|r: int, c: int|
            0 <= r < BUFFER_HEIGHT && 0 <= c < BUFFER_WIDTH && !(r == BUFFER_HEIGHT - 1 && v.col
                <= c < v.col + s.len()) ==> #[trigger] step_bytes(v, s).grid[r][c] == v.grid[r][c],
    decreases s.len(),
{
    if s.len() == 0 {
    } else {
        let b = translate_byte(s[0]);
        let cell = ScreenChar { ascii_character: b, color_code: v.color };
        let v1 = step_byte(v, b);
        assert(v.col < BUFFER_WIDTH);
        assert(v1.grid == written(v.grid, BUFFER_HEIGHT - 1, v.col as int, cell));
        assert(v1.col == v.col + 1);
        assert(v1.color == v.color);
        lemma_written_wf(v.grid, BUFFER_HEIGHT - 1, v.col as int, cell);
        let tail = s.drop_first();
        assert forall|i: int| 0 <= i < tail.len() implies tail[i] != LINE_FEED by {
            assert(tail[i] == s[i + 1]);
        }
        lemma_write_row(v1, tail);
        let v2 = step_bytes(v1, tail);
        assert(step_bytes(v, s) == v2);
        assert forall|i: int|
            0 <= i < s.len() implies #[trigger] v2.grid[BUFFER_HEIGHT - 1][v.col + i]
            == (ScreenChar { ascii_character: translate_byte(s[i]), color_code: v.color }) by {
            if i == 0 {
                assert(v2.grid[BUFFER_HEIGHT - 1][v.col as int] == v1.grid[BUFFER_HEIGHT - 1][v.col as int]);
                assert(v1.grid[BUFFER_HEIGHT - 1] == v.grid[BUFFER_HEIGHT - 1].update(
                    v.col as int,
                    cell,
                ));
            } else {
                assert(tail[i - 1] == s[i]);
                assert(v2.grid[BUFFER_HEIGHT - 1][v1.col + (i - 1)] == (ScreenChar {
                    ascii_character: translate_byte(tail[i - 1]),
                    color_code: v1.color,
                }));
            }
        }
        assert forall|r: int, c: int|
            0 <= r < BUFFER_HEIGHT && 0 <= c < BUFFER_WIDTH && !(r == BUFFER_HEIGHT - 1 && v.col
                <= c < v.col + s.len()) implies #[trigger] v2.grid[r][c] == v.grid[r][c] by {
            assert(v2.grid[r][c] == v1.grid[r][c]);
            if r == BUFFER_HEIGHT - 1 {
                assert(v1.grid[r] == v.grid[r].update(v.col as int, cell));
            } else {
                assert(v1.grid[r] == v.grid[r]);
            }
        }
    }
}

/// Writing a non-control byte into a full bottom row scrolls exactly
/// once, after which the byte lands at column 0 of the new bottom row and
/// the cursor stands at column 1.
pub proof fn lemma_row_overflow(v: WriterView, b: u8)
    requires
        v.wf(),
        v.col == BUFFER_WIDTH,
        b != LINE_FEED,
    ensures
        step_byte(v, b) == (WriterView {
            col: 1,
            color: v.color,
            grid: written(scrolled(v.grid, v.color), BUFFER_HEIGHT - 1, 0, ScreenChar {
                ascii_character: b,
                color_code: v.color,
            }),
        }),
{
}

/// The row-overflow scenario in full: from column 0, exactly eighty
/// printable bytes fill the bottom row without any scroll; the next byte
/// then triggers exactly one scroll before it is placed at column 0 of
/// the new bottom row.
pub proof fn lemma_fill_row_then_overflow(v: WriterView, s: Seq<u8>, b: u8)
    requires
        v.wf(),
        v.col == 0,
        s.len() == BUFFER_WIDTH,
        forall|i: int| 0 <= i < s.len() ==> s[i] != LINE_FEED,
        b != LINE_FEED,
    ensures
        ({
            let v80 = step_bytes(v, s);
            let v81 = step_byte(v80, b);
            &&& v80.col == BUFFER_WIDTH
            &&& forall|c: int|
                0 <= c < BUFFER_WIDTH ==> #[trigger] v80.grid[BUFFER_HEIGHT - 1][c]
                    == (ScreenChar { ascii_character: translate_byte(s[c]), color_code: v.color })
            &&& forall|r: int| 0 <= r < BUFFER_HEIGHT - 1 ==> #[trigger] v80.grid[r] == v.grid[r]
            &&& v81.col == 1
            &&& v81.grid[BUFFER_HEIGHT - 1][0] == (ScreenChar {
                ascii_character: b,
                color_code: v.color,
            })
            &&& forall|r: int| 0 <= r < BUFFER_HEIGHT - 1 ==> #[trigger] v81.grid[r] == v80.grid[r + 1]
        }),
{
    lemma_write_row(v, s);
    let v80 = step_bytes(v, s);
    assert forall|c: int|
        0 <= c < BUFFER_WIDTH implies #[trigger] v80.grid[BUFFER_HEIGHT - 1][c] == (ScreenChar {
        ascii_character: translate_byte(s[c]),
        color_code: v.color,
    }) by {
        assert(v80.grid[BUFFER_HEIGHT - 1][v.col + c] == (ScreenChar {
            ascii_character: translate_byte(s[c]),
            color_code: v.color,
        }));
    }
    assert forall|r: int| 0 <= r < BUFFER_HEIGHT - 1 implies #[trigger] v80.grid[r] == v.grid[r] by {
        assert forall|c: int| 0 <= c < BUFFER_WIDTH implies v80.grid[r][c] == v.grid[r][c] by {}
        assert(v80.grid[r] =~= v.grid[r]);
    }
    lemma_row_overflow(v80, b);
    let v81 = step_byte(v80, b);
    let cell = ScreenChar { ascii_character: b, color_code: v.color };
    assert(v81.grid == written(scrolled(v80.grid, v80.color), BUFFER_HEIGHT - 1, 0, cell));
    assert forall|r: int|
        0 <= r < BUFFER_HEIGHT - 1 implies #[trigger] v81.grid[r] == v80.grid[r + 1] by {
        assert(v81.grid[r] == scrolled(v80.grid, v80.color)[r]);
    }
    assert(v81.grid[BUFFER_HEIGHT - 1] == scrolled(v80.grid, v80.color)[BUFFER_HEIGHT - 1].update(
        0,
        cell,
    ));
}

/// A sequence of `n` line feeds, the byte sequence that scrolls `n` times.
pub open spec fn line_feeds(n: nat) -> Seq<u8> {
    Seq::new(n, |i: int| LINE_FEED)
}

/// After `n` consecutive line feeds the content has moved up by `n` rows
/// in unchanged order, the top `n` prior rows have scrolled off, the
/// bottom `n` rows are cleared in the active attribute, and the cursor
/// stands at column 0.
pub proof fn lemma_line_feeds(v: WriterView, n: nat)
    requires
        v.wf(),
        n <= BUFFER_HEIGHT,
    ensures
        ({
            let v2 = step_bytes(v, line_feeds(n));
            &&& v2.wf()
            &&& v2.color == v.color
            &&& n > 0 ==> v2.col == 0
            &&& n == 0 ==> v2 == v
            &&& forall|r: int| 0 <= r < BUFFER_HEIGHT - n ==> #[trigger] v2.grid[r] == v.grid[r + n]
            &&& forall|r: int|
                BUFFER_HEIGHT - n <= r < BUFFER_HEIGHT ==> #[trigger] v2.grid[r] == blank_row(
                    v.color,
                )
        }),
    decreases n,
{
    if n == 0 {
        assert(line_feeds(0) =~= Seq::<u8>::empty());
    } else {
        assert(line_feeds(n)[0] == LINE_FEED);
        assert(translate_byte(LINE_FEED) == LINE_FEED);
        assert(line_feeds(n).drop_first() =~= line_feeds((n - 1) as nat));
        let v1 = step_byte(v, LINE_FEED);
        assert(v1.grid == scrolled(v.grid, v.color));
        lemma_scrolled_wf(v.grid, v.color);
        lemma_line_feeds(v1, (n - 1) as nat);
        let v2 = step_bytes(v1, line_feeds((n - 1) as nat));
        assert(step_bytes(v, line_feeds(n)) == v2);
        assert forall|r: int|
            0 <= r < BUFFER_HEIGHT - n implies #[trigger] v2.grid[r] == v.grid[r + n] by {
            assert(v2.grid[r] == v1.grid[r + (n - 1)]);
            assert(v1.grid[r + (n - 1)] == scrolled(v.grid, v.color)[r + (n - 1)]);
        }
        assert forall|r: int|
            BUFFER_HEIGHT - n <= r < BUFFER_HEIGHT implies #[trigger] v2.grid[r] == blank_row(
            v.color,
        ) by {
            if r < BUFFER_HEIGHT - (n - 1) {
                assert(v2.grid[r] == v1.grid[r + (n - 1)]);
                assert(r + (n - 1) == BUFFER_HEIGHT - 1);
                assert(v1.grid[BUFFER_HEIGHT - 1] == blank_row(v.color));
            }
        }
    }
}

/// A cell keeps the attribute that was active when it was written, not
/// the attribute active later: writing one run of bytes, then changing
/// the active attribute, then writing a second run, leaves the first
/// run's cells in the first attribute and the second run's cells in the
/// second.
pub proof fn lemma_color_binding(v: WriterView, s1: Seq<u8>, c2: ColorCode, s2: Seq<u8>)
    requires
        v.wf(),
        forall|i: int| 0 <= i < s1.len() ==> s1[i] != LINE_FEED,
        forall|i: int| 0 <= i < s2.len() ==> s2[i] != LINE_FEED,
        v.col + s1.len() + s2.len() <= BUFFER_WIDTH,
    ensures
        ({
            let v1 = step_bytes(v, s1);
            let v1c = WriterView { color: c2, ..v1 };
            let v2 = step_bytes(v1c, s2);
            &&& forall|i: int|
                0 <= i < s1.len() ==> #[trigger] v2.grid[BUFFER_HEIGHT - 1][v.col + i]
                    == (ScreenChar { ascii_character: translate_byte(s1[i]), color_code: v.color })
            &&& forall|i: int|
                0 <= i < s2.len() ==> #[trigger] v2.grid[BUFFER_HEIGHT - 1][v.col + s1.len() + i]
                    == (ScreenChar { ascii_character: translate_byte(s2[i]), color_code: c2 })
        }),
{
    lemma_write_row(v, s1);
    let v1 = step_bytes(v, s1);
    let v1c = WriterView { color: c2, ..v1 };
    assert(v1c.wf());
    lemma_write_row(v1c, s2);
    let v2 = step_bytes(v1c, s2);
    assert forall|i: int|
        0 <= i < s1.len() implies #[trigger] v2.grid[BUFFER_HEIGHT - 1][v.col + i] == (ScreenChar {
        ascii_character: translate_byte(s1[i]),
        color_code: v.color,
    }) by {
        assert(v2.grid[BUFFER_HEIGHT - 1][v.col + i] == v1c.grid[BUFFER_HEIGHT - 1][v.col + i]);
        assert(v1.grid[BUFFER_HEIGHT - 1][v.col + i] == (ScreenChar {
            ascii_character: translate_byte(s1[i]),
            color_code: v.color,
        }));
    }
    assert forall|i: int|
        0 <= i < s2.len() implies #[trigger] v2.grid[BUFFER_HEIGHT - 1][v.col + s1.len() + i]
        == (ScreenChar { ascii_character: translate_byte(s2[i]), color_code: c2 }) by {
        assert(v2.grid[BUFFER_HEIGHT - 1][v1c.col + i] == (ScreenChar {
            ascii_character: translate_byte(s2[i]),
            color_code: c2,
        }));
    }
}

} // verus!
