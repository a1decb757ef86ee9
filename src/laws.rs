use vstd::prelude::*;
use crate::grid::{cell_index, on_grid};
use crate::model::{
    BUFFER_HEIGHT, BUFFER_WIDTH, SPACE, Console, all_chars, byte_applied, bytes_applied,
    char_at, inserted, lemma_bytes_applied, lemma_inserted, lemma_spill, scrolled,
    spill, tab_stop, valid_console, valid_line, valid_lines,
};
use crate::writer::Writer;

verus! {

/// A byte that types as itself: printable ASCII.
pub open spec fn printable(b: u8) -> bool {
    32 <= b <= 126
}

/// In every row of the text, an empty byte is followed by empty bytes only.
pub open spec fn rows_packed(ls: Seq<Seq<u8>>) -> bool {
    forall|r: int, c1: int, c2: int|
        #![trigger char_at(ls, r, c1), char_at(ls, r, c2)]
        0 <= r < BUFFER_HEIGHT && 0 <= c1 < c2 < BUFFER_WIDTH && char_at(ls, r, c1) == 0
            ==> char_at(ls, r, c2) == 0
}

/// Row packing, on the text: whatever input a valid console is given, no
/// character follows an empty cell in any row.
pub proof fn lemma_packed_after_input(s: Console, bs: Seq<u8>)
    requires
        valid_console(s),
    ensures
        rows_packed(bytes_applied(s, bs).lines),
{
    lemma_bytes_applied(s, bs);
    let ls = bytes_applied(s, bs).lines;
    assert forall|r: int, c1: int, c2: int|
        #![trigger char_at(ls, r, c1), char_at(ls, r, c2)]
        0 <= r < BUFFER_HEIGHT && 0 <= c1 < c2 < BUFFER_WIDTH && char_at(ls, r, c1) == 0
        implies char_at(ls, r, c2) == 0 by {
        assert(valid_line(ls[r]));
    }
}

/// Row packing, on the grid: in every row of a writer's display, a cell
/// without a character is followed by cells without a character only. (The
/// cursor is drawn by color alone and writes no character.)
pub proof fn lemma_grid_packed(w: &Writer)
    requires
        w.inv(),
    ensures
        forall|r: int, c1: int, c2: int|
            #![trigger w.cells()[cell_index(r, c1)], w.cells()[cell_index(r, c2)]]
            on_grid(r, c1) && on_grid(r, c2) && c1 < c2 && w.cells()[cell_index(
                r,
                c1,
            )].ascii_character == 0 ==> w.cells()[cell_index(r, c2)].ascii_character == 0,
{
    w.lemma_inv();
    let s = w@;
    assert forall|r: int, c1: int, c2: int|
        #![trigger w.cells()[cell_index(r, c1)], w.cells()[cell_index(r, c2)]]
        on_grid(r, c1) && on_grid(r, c2) && c1 < c2 && w.cells()[cell_index(
            r,
            c1,
        )].ascii_character == 0 implies w.cells()[cell_index(r, c2)].ascii_character == 0 by {
        assert(valid_line(s.lines[r]));
        if w.drawn() {
            assert(w.cells()[cell_index(r, c1)] == crate::model::shown_cell(s, r, c1));
            assert(w.cells()[cell_index(r, c2)] == crate::model::shown_cell(s, r, c2));
        } else {
            assert(w.cells()[cell_index(r, c1)] == crate::model::plain_cell(s.lines, r, c1));
            assert(w.cells()[cell_index(r, c2)] == crate::model::plain_cell(s.lines, r, c2));
        }
    }
}

/// Typing printable characters into an empty row from its start: after `i`
/// of them the row holds those `i`, and the cursor stands after them, or at
/// the start of the next row once the row is full.
proof fn lemma_typing_prefix(s: Console, bs: Seq<u8>, i: int)
    requires
        valid_console(s),
        s.col == 0,
        s.lines[s.row].len() == 0,
        bs.len() <= BUFFER_WIDTH,
        bs.len() == BUFFER_WIDTH ==> s.row + 1 < BUFFER_HEIGHT,
        forall|k: int| 0 <= k < bs.len() ==> printable(#[trigger] bs[k]),
        0 <= i <= bs.len(),
    ensures
        valid_console(bytes_applied(s, bs.take(i))),
        bytes_applied(s, bs.take(i)).lines[s.row] == bs.take(i),
        i < BUFFER_WIDTH ==> bytes_applied(s, bs.take(i)).row == s.row
            && bytes_applied(s, bs.take(i)).col == i,
        i == BUFFER_WIDTH ==> bytes_applied(s, bs.take(i)).row == s.row + 1
            && bytes_applied(s, bs.take(i)).col == 0,
    decreases i,
{
    lemma_bytes_applied(s, bs.take(i));
    if i == 0 {
        assert(bs.take(0) =~= Seq::<u8>::empty());
        assert(s.lines[s.row] =~= bs.take(0));
    } else {
        lemma_typing_prefix(s, bs, i - 1);
        let t = bytes_applied(s, bs.take(i - 1));
        let b = bs[i - 1];
        assert(printable(b));
        assert(bs.take(i).drop_last() =~= bs.take(i - 1));
        assert(bs.take(i).last() == b);
        let ls = t.lines;
        let r = s.row;
        assert(valid_line(ls[r]));
        lemma_inserted(ls, r, i - 1, b);
        let ls1 = ls.update(r, ls[r].skip(i - 1));
        assert(ls[r].skip(i - 1) =~= Seq::<u8>::empty());
        assert(ls1[r] =~= Seq::<u8>::empty());
        let st = ls[r].take(i - 1).push(b);
        assert(st + ls1[r] =~= bs.take(i));
        assert(inserted(ls, r, i - 1, b) == spill(ls1, r, st));
        assert(spill(ls1, r, st) == ls1.update(r, st + ls1[r]));
    }
}

/// Round trip: printable characters, at most a row of them, typed from the
/// start of an empty row leave exactly themselves in that row (when a full
/// row is typed, a row below it must exist for the cursor to go to).
pub proof fn lemma_typing_round_trip(s: Console, bs: Seq<u8>)
    requires
        valid_console(s),
        s.col == 0,
        s.lines[s.row].len() == 0,
        bs.len() <= BUFFER_WIDTH,
        bs.len() == BUFFER_WIDTH ==> s.row + 1 < BUFFER_HEIGHT,
        forall|k: int| 0 <= k < bs.len() ==> printable(#[trigger] bs[k]),
    ensures
        bytes_applied(s, bs).lines[s.row] == bs,
{
    lemma_typing_prefix(s, bs, bs.len() as int);
    assert(bs.take(bs.len() as int) =~= bs);
}

/// Wrap: one character more than a row holds, typed from the start of an
/// empty row that has a row below it, leaves the row's last character on the
/// row and puts the next one at the start of the row below.
pub proof fn lemma_wrap(s: Console, bs: Seq<u8>)
    requires
        valid_console(s),
        s.col == 0,
        s.lines[s.row].len() == 0,
        s.row + 1 < BUFFER_HEIGHT,
        bs.len() == BUFFER_WIDTH + 1,
        forall|k: int| 0 <= k < bs.len() ==> printable(#[trigger] bs[k]),
    ensures
        bytes_applied(s, bs).lines[s.row].len() == BUFFER_WIDTH,
        bytes_applied(s, bs).lines[s.row][BUFFER_WIDTH - 1] == bs[BUFFER_WIDTH - 1],
        bytes_applied(s, bs).lines[s.row + 1][0] == bs[BUFFER_WIDTH as int],
{
    let first = bs.take(BUFFER_WIDTH as int);
    assert forall|k: int| 0 <= k < first.len() implies printable(#[trigger] first[k]) by {
        assert(first[k] == bs[k]);
    }
    lemma_typing_prefix(s, first, BUFFER_WIDTH as int);
    assert(first.take(BUFFER_WIDTH as int) =~= first);
    assert(bs.drop_last() =~= first);
    let t = bytes_applied(s, first);
    let b = bs.last();
    assert(printable(bs[BUFFER_WIDTH as int]));
    lemma_inserted(t.lines, t.row, 0, b);
}

/// Line split: Enter with the cursor inside a row's text leaves the text
/// before the cursor on that row and puts the rest, in order, at the start
/// of the row below (on the last row, the rows scroll up first).
pub proof fn lemma_line_split(s: Console)
    requires
        valid_console(s),
        s.col < s.lines[s.row].len(),
    ensures
        s.row + 1 < BUFFER_HEIGHT ==> byte_applied(s, 10).lines[s.row] == s.lines[s.row].take(s.col)
            && byte_applied(s, 10).lines[s.row + 1].take(s.lines[s.row].len() - s.col)
            == s.lines[s.row].skip(s.col),
        s.row + 1 == BUFFER_HEIGHT ==> byte_applied(s, 10).lines[s.row - 1] == s.lines[s.row].take(
            s.col,
        ) && byte_applied(s, 10).lines[s.row].take(s.lines[s.row].len() - s.col)
            == s.lines[s.row].skip(s.col),
{
    let t = s.lines[s.row];
    assert(valid_line(t));
    let tail = t.skip(s.col);
    let cut = s.lines.update(s.row, t.take(s.col));
    assert(valid_lines(cut)) by {
        assert forall|j: int| 0 <= j < BUFFER_HEIGHT implies valid_line(#[trigger] cut[j]) by {
            if j != s.row {
                assert(valid_line(s.lines[j]));
            }
        }
    }
    assert(all_chars(tail));
    if s.row + 1 < BUFFER_HEIGHT {
        let q = s.row + 1;
        assert(valid_line(cut[q]));
        lemma_spill(cut, q, tail);
        let st = tail + cut[q];
        assert(st.take(tail.len() as int) =~= tail);
        if st.len() > BUFFER_WIDTH {
            assert(st.take(BUFFER_WIDTH as int).take(tail.len() as int) =~= tail);
        }
    } else {
        let sc = scrolled(cut);
        assert(valid_lines(sc)) by {
            assert forall|j: int| 0 <= j < BUFFER_HEIGHT implies valid_line(#[trigger] sc[j]) by {
                if j + 1 < BUFFER_HEIGHT {
                    assert(sc[j] == cut[j + 1]);
                }
            }
        }
        assert(sc[s.row] =~= Seq::<u8>::empty());
        lemma_spill(sc, s.row, tail);
        let st = tail + sc[s.row];
        assert(st =~= tail);
        assert(sc[s.row - 1] == cut[s.row]);
    }
}

/// Backspace join: from column 0 of a row below the first, when the row
/// above is not full and the two texts fit in one row, the row above becomes
/// its text followed by this row's, this row is emptied, the cursor stands at
/// the join, and every other row keeps its text.
pub proof fn lemma_backspace_join(s: Console)
    requires
        valid_console(s),
        s.col == 0,
        s.row > 0,
        s.lines[s.row - 1].len() + s.lines[s.row].len() <= BUFFER_WIDTH,
        s.lines[s.row - 1].len() < BUFFER_WIDTH,
    ensures
        byte_applied(s, 8).lines[s.row - 1] == s.lines[s.row - 1] + s.lines[s.row],
        byte_applied(s, 8).lines[s.row].len() == 0,
        byte_applied(s, 8).row == s.row - 1,
        byte_applied(s, 8).col == s.lines[s.row - 1].len(),
        forall|j: int|
            0 <= j < BUFFER_HEIGHT && j != s.row - 1 && j != s.row ==> #[trigger] byte_applied(
                s,
                8,
            ).lines[j] == s.lines[j],
{
    let q = s.row - 1;
    let above = s.lines[q];
    let j = above.len() as int;
    let ls = s.lines.update(s.row, Seq::<u8>::empty()).update(q, above.skip(j));
    assert(above.skip(j) =~= Seq::<u8>::empty());
    assert(above.take(j) =~= above);
    let st = above.take(j) + s.lines[s.row];
    assert(st + ls[q] =~= above + s.lines[s.row]);
}

/// Copy then paste on the same row leaves the text as it was (unless the row
/// is full and last: the cursor leaving it then scrolls the text up).
pub proof fn lemma_copy_paste(s: Console)
    requires
        valid_console(s),
        s.lines[s.row].len() < BUFFER_WIDTH || s.row + 1 < BUFFER_HEIGHT,
    ensures
        byte_applied(byte_applied(s, 3), 22).lines == s.lines,
{
    assert(s.lines.update(s.row, s.lines[s.row]) =~= s.lines);
}

/// Tab skips the word: with the cursor on a run of non-space characters
/// that a space ends, tab puts the cursor on that space and leaves the text
/// as it was.
pub proof fn lemma_tab_skip(s: Console, k: int)
    requires
        valid_console(s),
        s.col <= k < s.lines[s.row].len(),
        s.lines[s.row][k] == SPACE,
        forall|i: int| s.col <= i < k ==> #[trigger] s.lines[s.row][i] != SPACE,
    ensures
        byte_applied(s, 9).row == s.row,
        byte_applied(s, 9).col == k,
        byte_applied(s, 9).lines == s.lines,
{
    lemma_tab_scan(s.lines, s.row, s.col, k);
}

proof fn lemma_tab_scan(ls: Seq<Seq<u8>>, r: int, c: int, k: int)
    requires
        0 <= r < BUFFER_HEIGHT,
        ls.len() == BUFFER_HEIGHT,
        0 <= c <= k < ls[r].len(),
        k < BUFFER_WIDTH,
        ls[r][k] == SPACE,
        forall|i: int| c <= i < k ==> #[trigger] ls[r][i] != SPACE,
    ensures
        tab_stop(ls, r, c) == (r, k),
    decreases k - c,
{
    if c < k {
        lemma_tab_scan(ls, r, c + 1, k);
    }
}

/// Enter at the end of the last row's text scrolls: every row moves up by
/// one, the last row is empty, the cursor is at its start, and there are as
/// many rows as before.
pub proof fn lemma_scroll_at_bottom(s: Console)
    requires
        valid_console(s),
        s.row == BUFFER_HEIGHT - 1,
        s.col == s.lines[s.row].len(),
    ensures
        byte_applied(s, 10).lines == scrolled(s.lines),
        byte_applied(s, 10).lines.len() == BUFFER_HEIGHT,
        byte_applied(s, 10).lines[BUFFER_HEIGHT - 1].len() == 0,
        byte_applied(s, 10).row == BUFFER_HEIGHT - 1,
        byte_applied(s, 10).col == 0,
{
    let t = s.lines[s.row];
    assert(t.take(s.col) =~= t);
    assert(s.lines.update(s.row, t) =~= s.lines);
    assert(t.skip(s.col) =~= Seq::<u8>::empty());
    let sc = scrolled(s.lines);
    assert(sc[s.row] =~= Seq::<u8>::empty());
    assert(Seq::<u8>::empty() + sc[s.row] =~= Seq::<u8>::empty());
    assert(sc.update(s.row, Seq::<u8>::empty()) =~= sc);
}

} // verus!
