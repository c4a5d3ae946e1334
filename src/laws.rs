use vstd::prelude::*;
use crate::grid::{uniform_row, ACHCharacter, BUFFER_HEIGHT, BUFFER_WIDTH};
use crate::writer::{
    after_byte, after_new_line, after_text, blank, is_printable, row_of, shown, scrolled, scrolls, Screen,
    NEWLINE, PLACEHOLDER,
};

verus! {

/// Every byte of the sequence is printable.
pub open spec fn all_printable(bytes: Seq<u8>) -> bool {
    forall|k: int| 0 <= k < bytes.len() ==> is_printable(#[trigger] bytes[k])
}

/// The bottom row of `s` with the cells from its cursor on overwritten by
/// `bytes`, each in the writer's color.
pub open spec fn bottom_with_run(s: Screen, bytes: Seq<u8>) -> Seq<ACHCharacter> {
    let bottom = s.grid[BUFFER_HEIGHT - 1];
    bottom.take(s.column as int) + row_of(bytes, s.color) + bottom.skip((s.column + bytes.len()) as int)
}

/// Printable bytes that fit on the bottom row are stored there one after the
/// other from the cursor on, with no scroll, and the cursor moves past them.
pub proof fn lemma_run_fits(s: Screen, bytes: Seq<u8>)
    requires
        s.wf(),
        all_printable(bytes),
        s.column + bytes.len() <= BUFFER_WIDTH,
    ensures
        after_text(s, bytes) == (Screen {
            column: s.column + bytes.len(),
            color: s.color,
            grid: s.grid.update(BUFFER_HEIGHT - 1, bottom_with_run(s, bytes)),
        }),
    decreases bytes.len(),
{
    let bottom = s.grid[BUFFER_HEIGHT - 1];
    if bytes.len() == 0 {
        assert(bottom_with_run(s, bytes) =~= bottom);
        assert(s.grid.update(BUFFER_HEIGHT - 1, bottom) =~= s.grid);
    } else {
        let p = bytes.drop_last();
        assert(all_printable(p)) by {
            assert forall|k: int| 0 <= k < p.len() implies is_printable(#[trigger] p[k]) by {
                assert(p[k] == bytes[k]);
            }
        }
        lemma_run_fits(s, p);
        let t = after_text(s, p);
        assert(is_printable(bytes[bytes.len() - 1]));
        let c = ACHCharacter { ascii: bytes.last(), color: s.color };
        assert(t.grid[BUFFER_HEIGHT - 1].update(t.column as int, c) =~= bottom_with_run(s, bytes));
        assert(after_text(s, bytes).grid =~= s.grid.update(BUFFER_HEIGHT - 1, bottom_with_run(s, bytes)));
    }
}

/// A printable byte is stored unchanged, in the writer's color, at the cursor
/// on the bottom row, or at column 0 after a scroll when the row is full.
pub proof fn lemma_printable_preserved(s: Screen, b: u8)
    requires
        s.wf(),
        is_printable(b),
    ensures
        ({
            let pos: nat = if s.column < BUFFER_WIDTH { s.column } else { 0 };
            let t = after_text(s, seq![b]);
            &&& t.wf()
            &&& t.column == pos + 1
            &&& t.grid[BUFFER_HEIGHT - 1][pos as int] == (ACHCharacter { ascii: b, color: s.color })
        }),
{
    lemma_text_one(s, b);
    lemma_after_byte_wf(s, b);
}

/// A byte that is neither printable nor a newline is stored as the
/// placeholder glyph, never as itself unless it is the placeholder.
pub proof fn lemma_substitution(s: Screen, b: u8)
    requires
        s.wf(),
        !is_printable(b),
        b != NEWLINE,
    ensures
        ({
            let pos: nat = if s.column < BUFFER_WIDTH { s.column } else { 0 };
            let t = after_text(s, seq![b]);
            &&& t.wf()
            &&& t.column == pos + 1
            &&& t.grid[BUFFER_HEIGHT - 1][pos as int] == (ACHCharacter { ascii: PLACEHOLDER, color: s.color })
            &&& b != PLACEHOLDER ==> t.grid[BUFFER_HEIGHT - 1][pos as int].ascii != b
        }),
{
    lemma_text_one(s, b);
    lemma_after_byte_wf(s, PLACEHOLDER);
}

/// Writing one byte keeps the state well formed.
pub proof fn lemma_after_byte_wf(s: Screen, b: u8)
    requires
        s.wf(),
    ensures
        after_byte(s, b).wf(),
{
    let g = scrolled(s.grid, s.color);
    assert forall|i: int| 0 <= i < g.len() implies (#[trigger] g[i]).len() == BUFFER_WIDTH by {
        if i < BUFFER_HEIGHT - 1 {
            assert(g[i] == s.grid[i + 1]);
        }
    }
}

/// A newline scrolls and returns the cursor to column 0, at any column.
pub proof fn lemma_newline_scrolls(s: Screen)
    requires
        s.wf(),
    ensures
        after_text(s, seq![NEWLINE]) == after_new_line(s),
        after_text(s, seq![NEWLINE]).column == 0,
        after_text(s, seq![NEWLINE]).grid == scrolled(s.grid, s.color),
{
    lemma_text_one(s, NEWLINE);
}

/// Writing a one-byte text is writing its shown byte.
proof fn lemma_text_one(s: Screen, b: u8)
    ensures
        after_text(s, seq![b]) == after_byte(s, shown(b)),
{
    assert(seq![b].drop_last() =~= Seq::<u8>::empty());
    assert(after_text(s, seq![b].drop_last()) == s);
}

/// A run of printable bytes shorter than a row, written from column 0, reads
/// back from the bottom row byte for byte from column 0; the rows above stay.
pub proof fn lemma_faithful_line(s: Screen, bytes: Seq<u8>)
    requires
        s.wf(),
        s.column == 0,
        bytes.len() < BUFFER_WIDTH,
        all_printable(bytes),
    ensures
        ({
            let t = after_text(s, bytes);
            &&& t.wf()
            &&& t.column == bytes.len()
            &&& t.grid[BUFFER_HEIGHT - 1].take(bytes.len() as int) == row_of(bytes, s.color)
            &&& forall|j: int| 0 <= j < bytes.len() ==> (#[trigger] t.grid[BUFFER_HEIGHT - 1][j]).ascii == bytes[j]
            &&& forall|i: int| 0 <= i < BUFFER_HEIGHT - 1 ==> #[trigger] t.grid[i] == s.grid[i]
        }),
{
    lemma_run_fits(s, bytes);
    let t = after_text(s, bytes);
    let row = bottom_with_run(s, bytes);
    assert(row.len() == BUFFER_WIDTH);
    assert(row.take(bytes.len() as int) =~= row_of(bytes, s.color));
    assert(t.grid[BUFFER_HEIGHT - 1] == row);
    assert forall|j: int| 0 <= j < bytes.len() implies (#[trigger] t.grid[BUFFER_HEIGHT - 1][j]).ascii == bytes[j] by {
        assert(row[j] == row.take(bytes.len() as int)[j]);
    }
}

/// A full row of printable bytes written from column 0 fills the bottom row
/// without a scroll; one more printable byte scrolls exactly once and lands at
/// column 0 of a fresh bottom row.
pub proof fn lemma_wrap_scrolls_once(s: Screen, bytes: Seq<u8>)
    requires
        s.wf(),
        s.column == 0,
        bytes.len() == BUFFER_WIDTH + 1,
        all_printable(bytes),
    ensures
        ({
            let full = bytes.take(BUFFER_WIDTH as int);
            let mid = after_text(s, full);
            let last = ACHCharacter { ascii: bytes[BUFFER_WIDTH as int], color: s.color };
            &&& mid.column == BUFFER_WIDTH
            &&& mid.grid == s.grid.update(BUFFER_HEIGHT - 1, row_of(full, s.color))
            &&& after_text(s, bytes) == (Screen {
                column: 1,
                color: s.color,
                grid: scrolled(mid.grid, s.color).update(
                    BUFFER_HEIGHT - 1,
                    uniform_row(blank(s.color)).update(0, last),
                ),
            })
        }),
{
    let full = bytes.take(BUFFER_WIDTH as int);
    assert(all_printable(full)) by {
        assert forall|k: int| 0 <= k < full.len() implies is_printable(#[trigger] full[k]) by {
            assert(full[k] == bytes[k]);
        }
    }
    lemma_run_fits(s, full);
    assert(bottom_with_run(s, full) =~= row_of(full, s.color));
    assert(bytes.drop_last() =~= full);
    assert(is_printable(bytes[BUFFER_WIDTH as int]));
    let mid = after_text(s, full);
    let g = scrolled(mid.grid, s.color);
    assert(g[BUFFER_HEIGHT - 1] == uniform_row(blank(s.color)));
}

/// After `n` scrolls, row `i` holds what row `i + n` held before, or a blank
/// row where `i + n` is past the bottom: a row shifted out above the top is
/// gone for good, and after `BUFFER_HEIGHT` scrolls only blank rows remain.
pub proof fn lemma_bounded_history(s: Screen, n: nat)
    requires
        s.wf(),
    ensures
        scrolls(s, n).wf(),
        scrolls(s, n).color == s.color,
        n > 0 ==> scrolls(s, n).column == 0,
        forall|i: int|
            0 <= i < BUFFER_HEIGHT ==> #[trigger] scrolls(s, n).grid[i] == if i + n < BUFFER_HEIGHT {
                s.grid[i + n]
            } else {
                uniform_row(blank(s.color))
            },
        n >= BUFFER_HEIGHT ==> scrolls(s, n).grid == Seq::new(
            BUFFER_HEIGHT as nat,
            |i: int| uniform_row(blank(s.color)),
        ),
    decreases n,
{
    if n > 0 {
        lemma_bounded_history(s, (n - 1) as nat);
        let p = scrolls(s, (n - 1) as nat);
        let g = scrolls(s, n).grid;
        assert(g == scrolled(p.grid, s.color));
        assert forall|i: int| 0 <= i < BUFFER_HEIGHT implies #[trigger] g[i] == if i + n < BUFFER_HEIGHT {
            s.grid[i + n]
        } else {
            uniform_row(blank(s.color))
        } by {
            if i < BUFFER_HEIGHT - 1 {
                assert(g[i] == p.grid[i + 1]);
            }
        }
        lemma_after_byte_wf(p, NEWLINE);
        if n >= BUFFER_HEIGHT {
            assert(g =~= Seq::new(BUFFER_HEIGHT as nat, |i: int| uniform_row(blank(s.color))));
        }
    }
}

/// Writing `n` newlines is `n` scrolls.
pub proof fn lemma_newlines_scroll(s: Screen, n: nat)
    ensures
        after_text(s, Seq::new(n, |k: int| NEWLINE)) == scrolls(s, n),
    decreases n,
{
    if n > 0 {
        lemma_newlines_scroll(s, (n - 1) as nat);
        assert(Seq::new(n, |k: int| NEWLINE).drop_last() =~= Seq::new((n - 1) as nat, |k: int| NEWLINE));
    }
}

} // verus!
