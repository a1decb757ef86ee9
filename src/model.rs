use vstd::prelude::*;

verus! {

/// Number of rows of the display.
pub const BUFFER_HEIGHT: usize = 25;

/// Number of columns of the display.
pub const BUFFER_WIDTH: usize = 80;

/// The character byte of a space.
pub const SPACE: u8 = 32;

/// What the console holds, as text: each row's written characters (the
/// left-packed prefix of the row up to its first empty cell), the cursor, and
/// the clipboard register.
pub struct Console {
    pub lines: Seq<Seq<u8>>,
    pub row: int,
    pub col: int,
    pub clipboard: Seq<u8>,
}

/// A row's text: at most a row's width of characters, none of them the empty byte.
pub open spec fn valid_line(t: Seq<u8>) -> bool {
    &&& t.len() <= BUFFER_WIDTH
    &&& forall|i: int| 0 <= i < t.len() ==> t[i] != 0
}

pub open spec fn valid_lines(ls: Seq<Seq<u8>>) -> bool {
    &&& ls.len() == BUFFER_HEIGHT
    &&& forall|r: int| 0 <= r < BUFFER_HEIGHT ==> valid_line(#[trigger] ls[r])
}

/// The cursor stays on the grid and never stands past the end of its row's text.
pub open spec fn valid_console(s: Console) -> bool {
    &&& valid_lines(s.lines)
    &&& 0 <= s.row < BUFFER_HEIGHT
    &&& 0 <= s.col < BUFFER_WIDTH
    &&& s.col <= s.lines[s.row].len()
    &&& valid_line(s.clipboard)
}

pub open spec fn blank_lines() -> Seq<Seq<u8>> {
    Seq::new(BUFFER_HEIGHT as nat, |r: int| Seq::<u8>::empty())
}

/// The console as it starts, and as clearing leaves it: no text, cursor at the top left.
pub open spec fn cleared(s: Console) -> Console {
    Console { lines: blank_lines(), row: 0, col: 0, clipboard: s.clipboard }
}

/// Rows `1..` moved up by one, a blank last row.
pub open spec fn scrolled(ls: Seq<Seq<u8>>) -> Seq<Seq<u8>> {
    ls.skip(1).push(Seq::<u8>::empty())
}

/// Puts `s` in front of row `q`; what no longer fits in the row is carried
/// to the front of the next row, and so on down. What falls off the last row
/// is lost.
pub open spec fn spill(ls: Seq<Seq<u8>>, q: int, s: Seq<u8>) -> Seq<Seq<u8>>
    decreases BUFFER_HEIGHT - q,
{
    if q < 0 || q >= BUFFER_HEIGHT {
        ls
    } else {
        let st = s + ls[q];
        if st.len() <= BUFFER_WIDTH {
            ls.update(q, st)
        } else {
            spill(ls.update(q, st.take(BUFFER_WIDTH as int)), q + 1, st.skip(BUFFER_WIDTH as int))
        }
    }
}

/// Inserts `b` at column `c` of row `r`, the rest of the row moving right.
pub open spec fn inserted(ls: Seq<Seq<u8>>, r: int, c: int, b: u8) -> Seq<Seq<u8>> {
    spill(ls.update(r, ls[r].skip(c)), r, ls[r].take(c).push(b))
}

/// The cursor after a character was written at (`r`, `c`): one column on, to
/// the start of the next row from the last column, and from the last column of
/// the last row the text scrolls up.
pub open spec fn advanced(ls: Seq<Seq<u8>>, r: int, c: int, clip: Seq<u8>) -> Console {
    if c + 1 < BUFFER_WIDTH {
        Console { lines: ls, row: r, col: c + 1, clipboard: clip }
    } else if r + 1 < BUFFER_HEIGHT {
        Console { lines: ls, row: r + 1, col: 0, clipboard: clip }
    } else {
        Console { lines: scrolled(ls), row: r, col: 0, clipboard: clip }
    }
}

/// Typing one character: insert it under the cursor and advance.
pub open spec fn typed(s: Console, b: u8) -> Console {
    advanced(inserted(s.lines, s.row, s.col, b), s.row, s.col, s.clipboard)
}

/// Enter: the row is split at the cursor; its tail goes to the front of the
/// next row (scrolling from the last row), and the cursor to that row's start.
pub open spec fn line_break(s: Console) -> Console {
    let tail = s.lines[s.row].skip(s.col);
    let cut = s.lines.update(s.row, s.lines[s.row].take(s.col));
    if s.row + 1 < BUFFER_HEIGHT {
        Console { lines: spill(cut, s.row + 1, tail), row: s.row + 1, col: 0, clipboard: s.clipboard }
    } else {
        Console { lines: spill(scrolled(cut), s.row, tail), row: s.row, col: 0, clipboard: s.clipboard }
    }
}

/// One byte through the insertion path: `\n` breaks the line, the empty byte
/// is not a character and leaves everything as it is, any other byte is typed.
/// A line break or a typed character starts from the cursor settled on its
/// row's text, so that no gap opens in the row.
pub open spec fn byte_written(s: Console, b: u8) -> Console {
    if b == 10 {
        line_break(settled(s))
    } else if b == 0 {
        s
    } else {
        typed(settled(s), b)
    }
}

pub open spec fn bytes_written(s: Console, bs: Seq<u8>) -> Console
    decreases bs.len(),
{
    if bs.len() == 0 {
        s
    } else {
        byte_written(bytes_written(s, bs.drop_last()), bs.last())
    }
}

/// Where the cursor lands on a row when it comes to it from the right: just
/// past the row's text, or on its last column when the row is full.
pub open spec fn end_col(t: Seq<u8>) -> int {
    if t.len() < BUFFER_WIDTH {
        t.len() as int
    } else {
        BUFFER_WIDTH - 1
    }
}

/// One step left: a column back, or from column 0 to the end of the text of
/// the row above (of the same row on the first row).
pub open spec fn step_left(s: Console) -> Console {
    if s.col > 0 {
        Console { col: s.col - 1, ..s }
    } else {
        let q = if s.row > 0 { s.row - 1 } else { 0 };
        Console { row: q, col: end_col(s.lines[q]), ..s }
    }
}

/// One step right: a column on while the cell under the cursor holds text and
/// is not the last; else to the start of the next row (of the same row on the
/// last row).
pub open spec fn step_right(s: Console) -> Console {
    if s.col + 1 == BUFFER_WIDTH || s.col >= s.lines[s.row].len() {
        let q = if s.row + 1 < BUFFER_HEIGHT { s.row + 1 } else { s.row };
        Console { row: q, col: 0, ..s }
    } else {
        Console { col: s.col + 1, ..s }
    }
}

/// The column kept when the cursor moves to a row `t`: the same, or the last
/// character of `t` when `t` is shorter.
pub open spec fn kept_col(t: Seq<u8>, c: int) -> int {
    if c < t.len() {
        c
    } else if t.len() == 0 {
        0
    } else {
        t.len() - 1
    }
}

pub open spec fn moved_up(s: Console) -> Console {
    if s.row == 0 {
        s
    } else {
        Console { row: s.row - 1, col: kept_col(s.lines[s.row - 1], s.col), ..s }
    }
}

pub open spec fn moved_down(s: Console) -> Console {
    if s.row + 1 == BUFFER_HEIGHT {
        s
    } else {
        Console { row: s.row + 1, col: kept_col(s.lines[s.row + 1], s.col), ..s }
    }
}

/// The row without its character at column `c`, if it has one there.
pub open spec fn removed(t: Seq<u8>, c: int) -> Seq<u8> {
    if 0 <= c < t.len() {
        t.remove(c)
    } else {
        t
    }
}

/// Delete: the character under the cursor goes, the rest of the row moves left.
pub open spec fn deleted_forward(s: Console) -> Console {
    Console { lines: s.lines.update(s.row, removed(s.lines[s.row], s.col)), ..s }
}

/// Backspace. From column 0 of a row below the first, the row is joined to
/// the end of the row above and the cursor stands at the join. Else the
/// cursor steps left and the character it lands on is deleted.
pub open spec fn backspaced(s: Console) -> Console {
    if s.col == 0 && s.row > 0 {
        let q = s.row - 1;
        let j = end_col(s.lines[q]);
        let above = s.lines[q];
        let ls = s.lines.update(s.row, Seq::<u8>::empty()).update(q, above.skip(j));
        Console { lines: spill(ls, q, above.take(j) + s.lines[s.row]), row: q, col: j, ..s }
    } else {
        deleted_forward(step_left(s))
    }
}

/// Where tab stops: the first cell from (`r`, `c`) on, in reading order, that
/// holds a space or no text; on the last row the scan ends at the last column.
pub open spec fn tab_stop(ls: Seq<Seq<u8>>, r: int, c: int) -> (int, int)
    decreases BUFFER_HEIGHT * BUFFER_WIDTH - (r * BUFFER_WIDTH + c),
{
    if !(0 <= r < BUFFER_HEIGHT && 0 <= c < BUFFER_WIDTH) {
        (r, c)
    } else if c >= ls[r].len() || ls[r][c] == SPACE {
        (r, c)
    } else if c + 1 < BUFFER_WIDTH {
        tab_stop(ls, r, c + 1)
    } else if r + 1 < BUFFER_HEIGHT {
        tab_stop(ls, r + 1, 0)
    } else {
        (r, c)
    }
}

pub open spec fn four_spaces() -> Seq<u8> {
    seq![SPACE, SPACE, SPACE, SPACE]
}

/// Tab: on an empty row with the cursor at its start, four spaces are typed;
/// else the cursor skips to the end of the word under it.
pub open spec fn tabbed(s: Console) -> Console {
    if s.col == 0 && s.lines[s.row].len() == 0 {
        bytes_written(s, four_spaces())
    } else {
        let (r, c) = tab_stop(s.lines, s.row, s.col);
        Console { row: r, col: c, ..s }
    }
}

/// Copy: the current row's text goes to the clipboard.
pub open spec fn copied(s: Console) -> Console {
    Console { clipboard: s.lines[s.row], ..s }
}

/// Paste: the current row is replaced by the clipboard and the cursor goes
/// past the pasted text, as if it had been typed.
pub open spec fn pasted(s: Console) -> Console {
    let ls = s.lines.update(s.row, s.clipboard);
    if s.clipboard.len() < BUFFER_WIDTH {
        Console { lines: ls, col: s.clipboard.len() as int, ..s }
    } else {
        advanced(ls, s.row, BUFFER_WIDTH - 1, s.clipboard)
    }
}

/// The line printed after the screen is cleared by a form feed.
pub open spec fn banner() -> Seq<u8> {
    seq![77u8, 97u8, 114u8, 79u8, 83u8, 58u8, 10u8]
}

/// One byte of console input, with its control bytes: tab, backspace,
/// escape (clear), form feed (clear and banner), Control-C (copy),
/// Control-V (paste) and delete; every other byte goes through the
/// insertion path.
pub open spec fn byte_applied(s: Console, b: u8) -> Console {
    if b == 9 {
        tabbed(s)
    } else if b == 8 {
        backspaced(s)
    } else if b == 27 {
        cleared(s)
    } else if b == 12 {
        bytes_written(cleared(s), banner())
    } else if b == 3 {
        copied(s)
    } else if b == 22 {
        pasted(s)
    } else if b == 127 {
        deleted_forward(s)
    } else {
        byte_written(s, b)
    }
}

pub open spec fn bytes_applied(s: Console, bs: Seq<u8>) -> Console
    decreases bs.len(),
{
    if bs.len() == 0 {
        s
    } else {
        byte_applied(bytes_applied(s, bs.drop_last()), bs.last())
    }
}

/// The character byte shown at (`r`, `c`): the row's text, then empty bytes.
pub open spec fn char_at(ls: Seq<Seq<u8>>, r: int, c: int) -> u8 {
    if c < ls[r].len() {
        ls[r][c]
    } else {
        0
    }
}

/// The cell the display shows at (`r`, `c`): the character in the text color,
/// recolored with the cursor color where the cursor stands.
pub open spec fn shown_cell(s: Console, r: int, c: int) -> crate::color::ScreenChar {
    crate::color::ScreenChar {
        ascii_character: char_at(s.lines, r, c),
        color_code: crate::color::ColorCode(
            if r == s.row && c == s.col {
                crate::color::CURSOR_COLOR
            } else {
                crate::color::DEFAULT_COLOR
            },
        ),
    }
}

/// The cell at (`r`, `c`) with no cursor drawn: the character in the text color.
pub open spec fn plain_cell(ls: Seq<Seq<u8>>, r: int, c: int) -> crate::color::ScreenChar {
    crate::color::ScreenChar {
        ascii_character: char_at(ls, r, c),
        color_code: crate::color::ColorCode(crate::color::DEFAULT_COLOR),
    }
}

/// Valid text, clipboard and cursor on the grid; the cursor may stand past
/// its row's text (as emptying every cell leaves it).
pub open spec fn loose_console(s: Console) -> bool {
    &&& valid_lines(s.lines)
    &&& 0 <= s.row < BUFFER_HEIGHT
    &&& 0 <= s.col < BUFFER_WIDTH
    &&& valid_line(s.clipboard)
}

/// The console as an editing operation takes it up: a cursor standing past
/// its row's text goes back to the end of that text.
pub open spec fn settled(s: Console) -> Console {
    if s.col <= s.lines[s.row].len() {
        s
    } else {
        Console { col: s.lines[s.row].len() as int, ..s }
    }
}

pub proof fn lemma_settled(s: Console)
    requires
        loose_console(s),
    ensures
        valid_console(settled(s)),
        valid_console(s) ==> settled(s) == s,
{
    assert(valid_line(s.lines[s.row]));
}

/// Every byte of `s` is a character (not the empty byte).
pub open spec fn all_chars(s: Seq<u8>) -> bool {
    forall|i: int| 0 <= i < s.len() ==> s[i] != 0
}

pub proof fn lemma_spill(ls: Seq<Seq<u8>>, q: int, s: Seq<u8>)
    requires
        valid_lines(ls),
        0 <= q,
        all_chars(s),
        q < BUFFER_HEIGHT ==> s.len() + ls[q].len() <= 2 * BUFFER_WIDTH,
    ensures
        valid_lines(spill(ls, q, s)),
        forall|j: int| 0 <= j < q && j < BUFFER_HEIGHT ==> #[trigger] spill(ls, q, s)[j] == ls[j],
        q < BUFFER_HEIGHT && (s + ls[q]).len() <= BUFFER_WIDTH ==> spill(ls, q, s)[q] == s + ls[q],
        q < BUFFER_HEIGHT && (s + ls[q]).len() > BUFFER_WIDTH ==> spill(ls, q, s)[q] == (s + ls[q]).take(BUFFER_WIDTH as int),
    decreases BUFFER_HEIGHT - q,
{
    if q < BUFFER_HEIGHT {
        let st = s + ls[q];
        assert(all_chars(st)) by {
            assert forall|i: int| 0 <= i < st.len() implies st[i] != 0 by {
                if i < s.len() {
                } else {
                    assert(valid_line(ls[q]));
                }
            }
        }
        if st.len() <= BUFFER_WIDTH {
            let r = ls.update(q, st);
            assert forall|j: int| 0 <= j < BUFFER_HEIGHT implies valid_line(#[trigger] r[j]) by {
                if j != q {
                    assert(valid_line(ls[j]));
                }
            }
        } else {
            let ls2 = ls.update(q, st.take(BUFFER_WIDTH as int));
            let s2 = st.skip(BUFFER_WIDTH as int);
            assert forall|j: int| 0 <= j < BUFFER_HEIGHT implies valid_line(#[trigger] ls2[j]) by {
                if j != q {
                    assert(valid_line(ls[j]));
                }
            }
            assert(all_chars(s2));
            if q + 1 < BUFFER_HEIGHT {
                assert(valid_line(ls[q + 1]));
            }
            lemma_spill(ls2, q + 1, s2);
        }
    }
}

pub proof fn lemma_inserted(ls: Seq<Seq<u8>>, r: int, c: int, b: u8)
    requires
        valid_lines(ls),
        0 <= r < BUFFER_HEIGHT,
        0 <= c < BUFFER_WIDTH,
        c <= ls[r].len(),
        b != 0,
    ensures
        valid_lines(inserted(ls, r, c, b)),
        forall|j: int| 0 <= j < r ==> #[trigger] inserted(ls, r, c, b)[j] == ls[j],
        inserted(ls, r, c, b)[r].len() > c,
        inserted(ls, r, c, b)[r].take(c) == ls[r].take(c),
        inserted(ls, r, c, b)[r][c] == b,
{
    let t = ls[r];
    assert(valid_line(t));
    let ls1 = ls.update(r, t.skip(c));
    let s = t.take(c).push(b);
    assert forall|j: int| 0 <= j < BUFFER_HEIGHT implies valid_line(#[trigger] ls1[j]) by {
        if j != r {
            assert(valid_line(ls[j]));
        }
    }
    assert(all_chars(s));
    lemma_spill(ls1, r, s);
    let st = s + ls1[r];
    assert(st.take(c) =~= t.take(c));
    assert(st[c] == b);
    if st.len() > BUFFER_WIDTH {
        assert(st.take(BUFFER_WIDTH as int).take(c) =~= t.take(c));
    }
}

pub proof fn lemma_scrolled(ls: Seq<Seq<u8>>)
    requires
        valid_lines(ls),
    ensures
        valid_lines(scrolled(ls)),
{
    let r = scrolled(ls);
    assert forall|j: int| 0 <= j < BUFFER_HEIGHT implies valid_line(#[trigger] r[j]) by {
        if j + 1 < BUFFER_HEIGHT {
            assert(r[j] == ls[j + 1]);
            assert(valid_line(ls[j + 1]));
        }
    }
}

pub proof fn lemma_typed(s: Console, b: u8)
    requires
        valid_console(s),
        b != 0,
    ensures
        valid_console(typed(s, b)),
{
    lemma_inserted(s.lines, s.row, s.col, b);
    lemma_scrolled(inserted(s.lines, s.row, s.col, b));
}

pub proof fn lemma_line_break(s: Console)
    requires
        valid_console(s),
    ensures
        valid_console(line_break(s)),
{
    let t = s.lines[s.row];
    assert(valid_line(t));
    let tail = t.skip(s.col);
    let cut = s.lines.update(s.row, t.take(s.col));
    assert forall|j: int| 0 <= j < BUFFER_HEIGHT implies valid_line(#[trigger] cut[j]) by {
        if j != s.row {
            assert(valid_line(s.lines[j]));
        }
    }
    assert(all_chars(tail));
    if s.row + 1 < BUFFER_HEIGHT {
        assert(valid_line(cut[s.row + 1]));
        lemma_spill(cut, s.row + 1, tail);
    } else {
        lemma_scrolled(cut);
        let sc = scrolled(cut);
        assert(sc[s.row] =~= Seq::<u8>::empty());
        lemma_spill(sc, s.row, tail);
    }
}

pub proof fn lemma_byte_written(s: Console, b: u8)
    requires
        loose_console(s),
    ensures
        loose_console(byte_written(s, b)),
{
    lemma_settled(s);
    if b == 10 {
        lemma_line_break(settled(s));
    } else if b != 0 {
        lemma_typed(settled(s), b);
    }
}

pub proof fn lemma_bytes_written(s: Console, bs: Seq<u8>)
    requires
        loose_console(s),
    ensures
        loose_console(bytes_written(s, bs)),
    decreases bs.len(),
{
    if bs.len() > 0 {
        lemma_bytes_written(s, bs.drop_last());
        lemma_byte_written(bytes_written(s, bs.drop_last()), bs.last());
    }
}

pub proof fn lemma_tab_stop(ls: Seq<Seq<u8>>, r: int, c: int)
    requires
        valid_lines(ls),
        0 <= r < BUFFER_HEIGHT,
        0 <= c < BUFFER_WIDTH,
    ensures
        0 <= tab_stop(ls, r, c).0 < BUFFER_HEIGHT,
        0 <= tab_stop(ls, r, c).1 < BUFFER_WIDTH,
    decreases BUFFER_HEIGHT * BUFFER_WIDTH - (r * BUFFER_WIDTH + c),
{
    if c >= ls[r].len() || ls[r][c] == SPACE {
    } else if c + 1 < BUFFER_WIDTH {
        lemma_tab_stop(ls, r, c + 1);
    } else if r + 1 < BUFFER_HEIGHT {
        lemma_tab_stop(ls, r + 1, 0);
    }
}

pub proof fn lemma_backspaced(s: Console)
    requires
        loose_console(s),
    ensures
        loose_console(backspaced(s)),
{
    if s.col == 0 && s.row > 0 {
        let q = s.row - 1;
        let above = s.lines[q];
        let cur = s.lines[s.row];
        assert(valid_line(above));
        assert(valid_line(cur));
        let j = end_col(above);
        let ls = s.lines.update(s.row, Seq::<u8>::empty()).update(q, above.skip(j));
        assert forall|i: int| 0 <= i < BUFFER_HEIGHT implies valid_line(#[trigger] ls[i]) by {
            if i != q && i != s.row {
                assert(valid_line(s.lines[i]));
            }
        }
        let st = above.take(j) + cur;
        assert(all_chars(st));
        lemma_spill(ls, q, st);
        let res = spill(ls, q, st);
        assert((st + ls[q]).len() >= j);
        if (st + ls[q]).len() > BUFFER_WIDTH {
            assert(res[q].len() == BUFFER_WIDTH);
        }
    } else {
        let m = step_left(s);
        assert(valid_line(m.lines[m.row]));
        let t = removed(m.lines[m.row], m.col);
        let ls = m.lines.update(m.row, t);
        assert forall|i: int| 0 <= i < BUFFER_HEIGHT implies valid_line(#[trigger] ls[i]) by {
            if i != m.row {
                assert(valid_line(m.lines[i]));
            } else {
                assert(valid_line(t));
            }
        }
    }
}

pub proof fn lemma_deleted_forward(s: Console)
    requires
        loose_console(s),
    ensures
        loose_console(deleted_forward(s)),
{
    assert(valid_line(s.lines[s.row]));
    let t = removed(s.lines[s.row], s.col);
    let ls = s.lines.update(s.row, t);
    assert forall|i: int| 0 <= i < BUFFER_HEIGHT implies valid_line(#[trigger] ls[i]) by {
        if i != s.row {
            assert(valid_line(s.lines[i]));
        }
    }
}

pub proof fn lemma_byte_applied(s: Console, b: u8)
    requires
        loose_console(s),
    ensures
        loose_console(byte_applied(s, b)),
{
    if b == 9 {
        if s.col == 0 && s.lines[s.row].len() == 0 {
            lemma_bytes_written(s, four_spaces());
        } else {
            lemma_tab_stop(s.lines, s.row, s.col);
        }
    } else if b == 8 {
        lemma_backspaced(s);
    } else if b == 27 {
        assert(valid_lines(blank_lines()));
    } else if b == 12 {
        assert(valid_lines(blank_lines()));
        lemma_bytes_written(cleared(s), banner());
    } else if b == 3 {
        assert(valid_line(s.lines[s.row]));
    } else if b == 22 {
        let ls = s.lines.update(s.row, s.clipboard);
        assert forall|i: int| 0 <= i < BUFFER_HEIGHT implies valid_line(#[trigger] ls[i]) by {
            if i != s.row {
                assert(valid_line(s.lines[i]));
            }
        }
        lemma_scrolled(ls);
    } else if b == 127 {
        lemma_deleted_forward(s);
    } else {
        lemma_byte_written(s, b);
    }
}

pub proof fn lemma_bytes_applied(s: Console, bs: Seq<u8>)
    requires
        loose_console(s),
    ensures
        loose_console(bytes_applied(s, bs)),
    decreases bs.len(),
{
    if bs.len() > 0 {
        lemma_bytes_applied(s, bs.drop_last());
        lemma_byte_applied(bytes_applied(s, bs.drop_last()), bs.last());
    }
}

/// `n` single steps of the cursor, left for a negative `n`, right for a positive one.
pub open spec fn stepped(s: Console, n: int) -> Console
    decreases (if n < 0 { -n } else { n }),
{
    if n < 0 {
        stepped(step_left(s), n + 1)
    } else if n > 0 {
        stepped(step_right(s), n - 1)
    } else {
        s
    }
}

pub proof fn lemma_moved(s: Console)
    requires
        loose_console(s),
    ensures
        loose_console(moved_up(s)),
        loose_console(moved_down(s)),
        loose_console(step_left(s)),
        loose_console(step_right(s)),
{
}

} // verus!
