use vstd::prelude::*;
use vstd::string::StringSliceAdditionalSpecFns;
use crate::color::{ColorCode, ScreenChar, CURSOR_COLOR, DEFAULT_COLOR, empty_cell};
use crate::grid::{Buffer, cell_index, on_grid};
use crate::model::{
    BUFFER_HEIGHT, BUFFER_WIDTH, Console, all_chars, blank_lines, char_at, cleared, shown_cell,
    valid_console, valid_line, valid_lines, plain_cell, loose_console, settled, lemma_settled, spill, scrolled, advanced, typed, line_break,
    byte_written, lemma_typed, lemma_line_break, step_left,
    step_right, stepped, lemma_moved, moved_up, moved_down, deleted_forward,
    lemma_deleted_forward, backspaced, lemma_backspaced, bytes_written,
    tabbed, tab_stop, lemma_tab_stop, four_spaces, copied, pasted, banner, byte_applied,
    bytes_applied, lemma_byte_applied, SPACE,
};

verus! {

/// The console's text engine: it owns the grid, the cursor and the clipboard,
/// and carries out every editing operation on them. The cursor is drawn by
/// recoloring the cell under it. `clear_all` leaves the cursor undrawn and
/// where it was, possibly past its row's text: navigation, delete, backspace
/// and tab start from it as it stands, and the insertion path first brings it
/// back to the end of its row's text.
pub struct Writer {
    column_position: usize,
    row_position: usize,
    color_code: ColorCode,
    buffer: Buffer,
    clipboard: Vec<u8>,
    lines: Ghost<Seq<Seq<u8>>>,
    cursor_drawn: bool,
}

impl View for Writer {
    type V = Console;

    closed spec fn view(&self) -> Console {
        Console {
            lines: self.lines@,
            row: self.row_position as int,
            col: self.column_position as int,
            clipboard: self.clipboard@,
        }
    }
}

impl Writer {
    /// The grid's character bytes show the text.
    closed spec fn text_shown(&self) -> bool {
        &&& self.buffer.wf()
        &&& valid_lines(self.lines@)
        &&& valid_line(self.clipboard@)
        &&& self.color_code == ColorCode(DEFAULT_COLOR)
        &&& self.row_position < BUFFER_HEIGHT
        &&& self.column_position < BUFFER_WIDTH
        &&& forall|r: int, c: int|
            on_grid(r, c) ==> (#[trigger] self.buffer.at(r, c)).ascii_character == char_at(
                self.lines@,
                r,
                c,
            )
    }

    /// The grid shows the text with no cursor drawn.
    closed spec fn unpainted(&self) -> bool {
        &&& self.text_shown()
        &&& forall|r: int, c: int|
            on_grid(r, c) ==> (#[trigger] self.buffer.at(r, c)).color_code == ColorCode(
                DEFAULT_COLOR,
            )
    }

    /// The writer's invariant: the grid shows the text cell for cell. With the
    /// cursor drawn, the console is valid and the cell under the cursor has
    /// the cursor color; with no cursor drawn (after the cells were emptied),
    /// every cell has the text color and the cursor may stand past its row's
    /// text.
    pub closed spec fn inv(&self) -> bool {
        &&& self.text_shown()
        &&& self.cursor_drawn ==> forall|r: int, c: int|
            on_grid(r, c) ==> #[trigger] self.buffer.at(r, c) == shown_cell(self@, r, c)
        &&& !self.cursor_drawn ==> forall|r: int, c: int|
            on_grid(r, c) ==> (#[trigger] self.buffer.at(r, c)).color_code == ColorCode(
                DEFAULT_COLOR,
            )
    }

    /// Whether the cell under the cursor carries the cursor color.
    pub closed spec fn drawn(&self) -> bool {
        self.cursor_drawn
    }

    /// A cleared console with the cursor at the top left.
    pub fn new() -> (w: Writer)
        ensures
            w.inv(),
            w.drawn(),
            w@ == cleared(w@),
            w@.clipboard.len() == 0,
    {
        let mut w = Writer {
            column_position: 0,
            row_position: 0,
            color_code: ColorCode(DEFAULT_COLOR),
            buffer: Buffer::blank(),
            clipboard: Vec::new(),
            lines: Ghost(blank_lines()),
            cursor_drawn: false,
        };
        assert(w@.lines =~= blank_lines());
        w.paint();
        w
    }

    /// Draws the cursor on the cell under it.
    fn paint(&mut self)
        requires
            old(self).unpainted(),
        ensures
            final(self).inv(),
            final(self).drawn(),
            final(self)@ == old(self)@,
    {
        let sc = self.buffer.read(self.row_position, self.column_position);
        self.buffer.write(
            self.row_position,
            self.column_position,
            ScreenChar { ascii_character: sc.ascii_character, color_code: ColorCode(CURSOR_COLOR) },
        );
        self.cursor_drawn = true;
    }

    /// Gives the cell under the cursor its text color back, if the cursor is drawn.
    fn erase_cursor(&mut self)
        requires
            old(self).inv(),
        ensures
            final(self).unpainted(),
            final(self).inv(),
            !final(self).drawn(),
            final(self)@ == old(self)@,
    {
        if self.cursor_drawn {
            let sc = self.buffer.read(self.row_position, self.column_position);
            self.buffer.write(
                self.row_position,
                self.column_position,
                ScreenChar { ascii_character: sc.ascii_character, color_code: self.color_code },
            );
            self.cursor_drawn = false;
        }
    }

    /// The length of the text of row `q`: the column of its first empty cell.
    fn line_len(&self, q: usize) -> (n: usize)
        requires
            self.text_shown(),
            q < BUFFER_HEIGHT,
        ensures
            n == self.lines@[q as int].len(),
    {
        assert(valid_line(self.lines@[q as int]));
        let mut i: usize = 0;
        while i < BUFFER_WIDTH && self.buffer.read(q, i).ascii_character != 0
            invariant
                self.text_shown(),
                q < BUFFER_HEIGHT,
                i <= BUFFER_WIDTH,
                i <= self.lines@[q as int].len(),
            decreases BUFFER_WIDTH - i,
        {
            i = i + 1;
        }
        i
    }

    /// The text of row `q`.
    fn line(&self, q: usize) -> (t: Vec<u8>)
        requires
            self.text_shown(),
            q < BUFFER_HEIGHT,
        ensures
            t@ == self.lines@[q as int],
    {
        let n = self.line_len(q);
        let mut t: Vec<u8> = Vec::new();
        let mut i: usize = 0;
        while i < n
            invariant
                self.text_shown(),
                q < BUFFER_HEIGHT,
                n == self.lines@[q as int].len(),
                i <= n,
                t@ == self.lines@[q as int].take(i as int),
            decreases n - i,
        {
            let sc = self.buffer.read(q, i);
            t.push(sc.ascii_character);
            i = i + 1;
            assert(t@ =~= self.lines@[q as int].take(i as int));
        }
        assert(t@ =~= self.lines@[q as int]);
        t
    }

    /// Replaces the text of row `q` by `t`.
    fn set_line(&mut self, q: usize, t: &Vec<u8>)
        requires
            old(self).unpainted(),
            q < BUFFER_HEIGHT,
            valid_line(t@),
        ensures
            final(self).unpainted(),
            final(self).cursor_drawn == old(self).cursor_drawn,
            final(self)@ == (Console { lines: old(self)@.lines.update(q as int, t@), ..old(self)@ }),
    {
        let ghost old_lines = self.lines@;
        let ghost new_lines = old_lines.update(q as int, t@);
        let mut c: usize = 0;
        while c < BUFFER_WIDTH
            invariant
                self.buffer.wf(),
                q < BUFFER_HEIGHT,
                c <= BUFFER_WIDTH,
                valid_line(t@),
                valid_lines(old_lines),
                new_lines == old_lines.update(q as int, t@),
                self.lines@ == old_lines,
                self.row_position == old(self).row_position,
                self.column_position == old(self).column_position,
                self.clipboard@ == old(self).clipboard@,
                self.color_code == old(self).color_code,
                self.cursor_drawn == old(self).cursor_drawn,
                forall|r: int, k: int|
                    on_grid(r, k) ==> (#[trigger] self.buffer.at(r, k)).color_code == ColorCode(
                        DEFAULT_COLOR,
                    ),
                forall|r: int, k: int|
                    on_grid(r, k) ==> (#[trigger] self.buffer.at(r, k)).ascii_character == if r
                        == q && k < c {
                        char_at(new_lines, r, k)
                    } else {
                        char_at(old_lines, r, k)
                    },
            decreases BUFFER_WIDTH - c,
        {
            let b: u8 = if c < t.len() {
                t[c]
            } else {
                0
            };
            self.buffer.write(q, c, ScreenChar { ascii_character: b, color_code: ColorCode(DEFAULT_COLOR) });
            c = c + 1;
        }
        self.lines = Ghost(new_lines);
        assert forall|r: int| 0 <= r < BUFFER_HEIGHT implies valid_line(#[trigger] new_lines[r]) by {
            if r != q {
                assert(valid_line(old_lines[r]));
            }
        }
    }

    /// Puts `s` in front of row `q`, carrying what overflows a row to the
    /// front of the next one.
    fn spill(&mut self, q: usize, s: Vec<u8>)
        requires
            old(self).unpainted(),
            q <= BUFFER_HEIGHT,
            all_chars(s@),
            q < BUFFER_HEIGHT ==> s@.len() + old(self)@.lines[q as int].len() <= 2 * BUFFER_WIDTH,
        ensures
            final(self).unpainted(),
            final(self)@ == (Console { lines: spill(old(self)@.lines, q as int, s@), ..old(self)@ }),
    {
        let ghost target = spill(self.lines@, q as int, s@);
        let mut q = q;
        let mut s = s;
        let mut done = false;
        while q < BUFFER_HEIGHT && !done
            invariant
                self.unpainted(),
                q <= BUFFER_HEIGHT,
                all_chars(s@),
                !done && q < BUFFER_HEIGHT ==> s@.len() + self@.lines[q as int].len() <= 2
                    * BUFFER_WIDTH,
                done ==> self.lines@ == target,
                !done ==> spill(self.lines@, q as int, s@) == target,
                self.row_position == old(self).row_position,
                self.column_position == old(self).column_position,
                self.clipboard@ == old(self).clipboard@,
            decreases BUFFER_HEIGHT - q + if done {
                0int
            } else {
                1int
            },
        {
            let mut row = self.line(q);
            assert(valid_line(row@));
            let mut st = s;
            let ghost st0 = st@ + row@;
            st.append(&mut row);
            assert(st@ == st0);
            assert(all_chars(st@));
            if st.len() <= BUFFER_WIDTH {
                self.set_line(q, &st);
                s = Vec::new();
                done = true;
            } else {
                let rest = st.split_off(BUFFER_WIDTH);
                assert(st@ == st0.take(BUFFER_WIDTH as int));
                assert(rest@ == st0.skip(BUFFER_WIDTH as int));
                self.set_line(q, &st);
                s = rest;
                q = q + 1;
                if q < BUFFER_HEIGHT {
                    assert(valid_line(self@.lines[q as int]));
                }
            }
        }
    }

    /// Moves every row up by one and blanks the last row; the cursor goes to
    /// the start of its row.
    fn shift_lines_up(&mut self)
        requires
            old(self).unpainted(),
        ensures
            final(self).unpainted(),
            final(self)@ == (Console { lines: scrolled(old(self)@.lines), col: 0, ..old(self)@ }),
    {
        let ghost l0 = self.lines@;
        let mut q: usize = 1;
        while q < BUFFER_HEIGHT
            invariant
                self.unpainted(),
                1 <= q <= BUFFER_HEIGHT,
                l0.len() == BUFFER_HEIGHT,
                self.lines@.len() == BUFFER_HEIGHT,
                forall|j: int| 0 <= j < q - 1 ==> #[trigger] self.lines@[j] == l0[j + 1],
                forall|j: int| q - 1 <= j < BUFFER_HEIGHT ==> #[trigger] self.lines@[j] == l0[j],
                self.row_position == old(self).row_position,
                self.column_position == old(self).column_position,
                self.clipboard@ == old(self).clipboard@,
            decreases BUFFER_HEIGHT - q,
        {
            let t = self.line(q);
            assert(valid_line(self.lines@[q as int]));
            self.set_line(q - 1, &t);
            q = q + 1;
        }
        let empty: Vec<u8> = Vec::new();
        self.set_line(BUFFER_HEIGHT - 1, &empty);
        self.column_position = 0;
        assert(self.lines@ =~= scrolled(l0));
    }

    /// Moves the cursor on from the cell it has just written.
    fn advance(&mut self)
        requires
            old(self).unpainted(),
        ensures
            final(self).unpainted(),
            final(self)@ == advanced(
                old(self)@.lines,
                old(self)@.row,
                old(self)@.col,
                old(self)@.clipboard,
            ),
    {
        if self.column_position + 1 < BUFFER_WIDTH {
            self.column_position = self.column_position + 1;
        } else if self.row_position + 1 < BUFFER_HEIGHT {
            self.row_position = self.row_position + 1;
            self.column_position = 0;
        } else {
            self.shift_lines_up();
        }
    }

    /// Types one character: it is inserted under the cursor, the rest of the
    /// row moving right (and on into the rows below), and the cursor advances.
    fn type_char(&mut self, b: u8)
        requires
            old(self).unpainted(),
            valid_console(old(self)@),
            b != 0,
        ensures
            final(self).unpainted(),
            valid_console(final(self)@),
            final(self)@ == typed(old(self)@, b),
    {
        proof {
            lemma_typed(self@, b);
        }
        let row = self.row_position;
        let col = self.column_position;
        let mut t = self.line(row);
        assert(valid_line(t@));
        let tail = t.split_off(col);
        self.set_line(row, &tail);
        t.push(b);
        assert(all_chars(t@));
        self.spill(row, t);
        self.advance();
    }

    /// Enter: splits the row at the cursor and carries its tail to the front
    /// of the next row, scrolling from the last row.
    fn break_line(&mut self)
        requires
            old(self).unpainted(),
            valid_console(old(self)@),
        ensures
            final(self).unpainted(),
            valid_console(final(self)@),
            final(self)@ == line_break(old(self)@),
    {
        proof {
            lemma_line_break(self@);
        }
        let ghost s0 = self@;
        let row = self.row_position;
        let mut t = self.line(row);
        assert(valid_line(t@));
        let tail = t.split_off(self.column_position);
        self.set_line(row, &t);
        if row + 1 < BUFFER_HEIGHT {
            self.row_position = row + 1;
            self.column_position = 0;
            assert(valid_line(self@.lines[row + 1]));
        } else {
            self.shift_lines_up();
            assert(self@.lines[row as int] =~= Seq::<u8>::empty());
        }
        assert(all_chars(tail@));
        self.spill(self.row_position, tail);
    }

    /// Brings a cursor standing past its row's text back to the end of that text.
    fn settle_cursor(&mut self)
        requires
            old(self).unpainted(),
        ensures
            final(self).unpainted(),
            valid_console(final(self)@),
            final(self)@ == settled(old(self)@),
    {
        proof {
            lemma_settled(self@);
        }
        let n = self.line_len(self.row_position);
        if self.column_position > n {
            self.column_position = n;
        }
    }

    /// One byte through the insertion path.
    fn put_byte(&mut self, b: u8)
        requires
            old(self).unpainted(),
        ensures
            final(self).unpainted(),
            final(self)@ == byte_written(old(self)@, b),
    {
        if b == 10 {
            self.settle_cursor();
            self.break_line();
        } else if b != 0 {
            self.settle_cursor();
            self.type_char(b);
        }
    }

    /// One step left (the relative-position rule): a column back, or from
    /// column 0 up to the end of the text of the row above.
    fn step_left(&mut self)
        requires
            old(self).unpainted(),
        ensures
            final(self).unpainted(),
            final(self)@ == step_left(old(self)@),
    {
        proof {
            lemma_moved(self@);
        }
        if self.column_position != 0 {
            self.column_position = self.column_position - 1;
        } else {
            self.row_position = if self.row_position != 0 {
                self.row_position - 1
            } else {
                0
            };
            self.column_position = BUFFER_WIDTH - 1;
            assert(valid_line(self.lines@[self.row_position as int]));
            let ghost q = self.row_position;
            while self.buffer.read(self.row_position, self.column_position).ascii_character == 0
                && self.column_position != 0
                invariant
                    self.unpainted(),
                    self.row_position == q,
                    self@.lines == old(self)@.lines,
                    self@.clipboard == old(self)@.clipboard,
                    valid_line(self.lines@[q as int]),
                    self.lines@[self.row_position as int].len() <= self.column_position + 1,
                decreases self.column_position,
            {
                self.column_position = self.column_position - 1;
            }
            if self.buffer.read(self.row_position, self.column_position).ascii_character != 0
                && self.column_position != BUFFER_WIDTH - 1 {
                self.column_position = self.column_position + 1;
            }
        }
    }

    /// One step right (the relative-position rule): a column on while the
    /// cell holds text and is not the last, else to the start of the next row.
    fn step_right(&mut self)
        requires
            old(self).unpainted(),
        ensures
            final(self).unpainted(),
            final(self)@ == step_right(old(self)@),
    {
        proof {
            lemma_moved(self@);
        }
        assert(valid_line(self.lines@[self.row_position as int]));
        if self.column_position == BUFFER_WIDTH - 1 || self.buffer.read(
            self.row_position,
            self.column_position,
        ).ascii_character == 0 {
            self.column_position = 0;
            self.row_position = if self.row_position != BUFFER_HEIGHT - 1 {
                self.row_position + 1
            } else {
                self.row_position
            };
        } else {
            self.column_position = self.column_position + 1;
        }
    }

    /// Moves the cursor by `shift` single steps, one at a time.
    fn set_relative_position(&mut self, shift: i32)
        requires
            old(self).unpainted(),
        ensures
            final(self).unpainted(),
            final(self)@ == stepped(old(self)@, shift as int),
    {
        let mut n: i32 = shift;
        while n != 0
            invariant
                self.unpainted(),
                stepped(self@, n as int) == stepped(old(self)@, shift as int),
            decreases (if n < 0 { -(n as int) } else { n as int }),
        {
            if n < 0 {
                self.step_left();
                n = n + 1;
            } else {
                self.step_right();
                n = n - 1;
            }
        }
    }

    /// Moves the cursor one row up or down, keeping its column where the
    /// new row's text reaches it.
    fn move_vertically(&mut self, up: bool)
        requires
            old(self).unpainted(),
        ensures
            final(self).unpainted(),
            up ==> final(self)@ == moved_up(old(self)@),
            !up ==> final(self)@ == moved_down(old(self)@),
    {
        proof {
            lemma_moved(self@);
        }
        if up {
            if self.row_position == 0 {
                return;
            }
            self.row_position = self.row_position - 1;
        } else {
            if self.row_position == BUFFER_HEIGHT - 1 {
                return;
            }
            self.row_position = self.row_position + 1;
        }
        let ghost c0 = self.column_position;
        assert(valid_line(self.lines@[self.row_position as int]));
        while self.buffer.read(self.row_position, self.column_position).ascii_character == 0
            && self.column_position > 0
            invariant
                self.unpainted(),
                self.row_position == old(self).row_position - 1 || self.row_position == old(
                    self,
                ).row_position + 1,
                up ==> self.row_position == old(self).row_position - 1,
                !up ==> self.row_position == old(self).row_position + 1,
                self@.lines == old(self)@.lines,
                self@.clipboard == old(self)@.clipboard,
                valid_line(self.lines@[self.row_position as int]),
                self.column_position <= c0,
                self.column_position == c0 || (self.lines@[self.row_position as int].len()
                    <= self.column_position + 1 && self.lines@[self.row_position as int].len()
                    <= c0),
            decreases self.column_position,
        {
            self.column_position = self.column_position - 1;
        }
    }

    /// Delete: removes the character under the cursor, the rest of the row
    /// moving left.
    fn delete_at_cursor(&mut self)
        requires
            old(self).unpainted(),
        ensures
            final(self).unpainted(),
            final(self)@ == deleted_forward(old(self)@),
    {
        proof {
            lemma_deleted_forward(self@);
        }
        let mut t = self.line(self.row_position);
        assert(valid_line(t@));
        assert(self@.lines.update(self@.row, self@.lines[self@.row]) =~= self@.lines);
        if self.column_position < t.len() {
            t.remove(self.column_position);
            self.set_line(self.row_position, &t);
        }
    }

    /// Backspace: joins the row to the one above from column 0, else deletes
    /// the character before the cursor.
    fn backspace(&mut self)
        requires
            old(self).unpainted(),
        ensures
            final(self).unpainted(),
            final(self)@ == backspaced(old(self)@),
    {
        proof {
            lemma_backspaced(self@);
        }
        if self.column_position == 0 && self.row_position != 0 {
            let row = self.row_position;
            let mut cur = self.line(row);
            let mut above = self.line(row - 1);
            assert(valid_line(cur@));
            assert(valid_line(above@));
            let empty: Vec<u8> = Vec::new();
            self.set_line(row, &empty);
            self.step_left();
            let j = self.column_position;
            let above_tail = above.split_off(j);
            self.set_line(row - 1, &above_tail);
            above.append(&mut cur);
            assert(all_chars(above@));
            self.spill(row - 1, above);
        } else {
            self.step_left();
            self.delete_at_cursor();
        }
    }

    /// Each byte of `bs` through the insertion path.
    fn put_bytes(&mut self, bs: &Vec<u8>)
        requires
            old(self).unpainted(),
        ensures
            final(self).unpainted(),
            final(self)@ == bytes_written(old(self)@, bs@),
    {
        let mut i: usize = 0;
        while i < bs.len()
            invariant
                self.unpainted(),
                i <= bs@.len(),
                self@ == bytes_written(old(self)@, bs@.take(i as int)),
            decreases bs@.len() - i,
        {
            self.put_byte(bs[i]);
            assert(bs@.take(i + 1).drop_last() =~= bs@.take(i as int));
            i = i + 1;
        }
        assert(bs@.take(i as int) =~= bs@);
    }

    /// Tab: four spaces at the start of an empty row, else the cursor skips
    /// to the end of the word under it.
    fn tab(&mut self)
        requires
            old(self).unpainted(),
        ensures
            final(self).unpainted(),
            final(self)@ == tabbed(old(self)@),
    {
        assert(valid_line(self.lines@[self.row_position as int]));
        if self.column_position == 0 && self.buffer.read(self.row_position, 0).ascii_character == 0 {
            let spaces: Vec<u8> = vec![SPACE, SPACE, SPACE, SPACE];
            assert(spaces@ =~= four_spaces());
            self.put_bytes(&spaces);
            return;
        }
        proof {
            lemma_tab_stop(self@.lines, self@.row, self@.col);
        }
        let ghost target = tab_stop(self@.lines, self@.row, self@.col);
        let mut stuck = false;
        while self.buffer.read(self.row_position, self.column_position).ascii_character != SPACE
            && self.buffer.read(self.row_position, self.column_position).ascii_character != 0
            && !stuck
            invariant
                self.unpainted(),
                self@.lines == old(self)@.lines,
                self@.clipboard == old(self)@.clipboard,
                stuck ==> self.row_position + 1 == BUFFER_HEIGHT && self.column_position + 1
                    == BUFFER_WIDTH,
                tab_stop(self@.lines, self@.row, self@.col) == target,
            decreases BUFFER_HEIGHT * BUFFER_WIDTH + 1 - (self.row_position * 80
                + self.column_position) - if stuck {
                1int
            } else {
                0int
            },
        {
            assert(valid_line(self.lines@[self.row_position as int]));
            if self.column_position + 1 < BUFFER_WIDTH {
                self.column_position = self.column_position + 1;
            } else if self.row_position + 1 < BUFFER_HEIGHT {
                self.row_position = self.row_position + 1;
                self.column_position = 0;
            } else {
                stuck = true;
            }
        }
        assert(valid_line(self.lines@[self.row_position as int]));
    }

    /// Copies the current row's text to the clipboard.
    fn copy_line(&mut self)
        requires
            old(self).unpainted(),
        ensures
            final(self).unpainted(),
            final(self)@ == copied(old(self)@),
    {
        let t = self.line(self.row_position);
        assert(valid_line(t@));
        self.clipboard = t;
    }

    /// Replaces the current row by the clipboard, the cursor going past it.
    fn paste_line(&mut self)
        requires
            old(self).unpainted(),
        ensures
            final(self).unpainted(),
            final(self)@ == pasted(old(self)@),
    {
        proof {
            lemma_byte_applied(self@, 22);
        }
        let clip = self.clipboard.clone();
        assert(clip@ =~= self.clipboard@);
        self.set_line(self.row_position, &clip);
        if clip.len() < BUFFER_WIDTH {
            self.column_position = clip.len();
        } else {
            self.column_position = BUFFER_WIDTH - 1;
            self.advance();
        }
    }

    /// Blanks every row and puts the cursor at the top left.
    fn clear_screen(&mut self)
        requires
            old(self).unpainted(),
        ensures
            final(self).unpainted(),
            final(self)@ == cleared(old(self)@),
    {
        self.blank_rows();
        self.row_position = 0;
        self.column_position = 0;
    }

    /// Blanks every row; the cursor stays where it is.
    fn blank_rows(&mut self)
        requires
            old(self).unpainted(),
        ensures
            final(self).unpainted(),
            final(self).cursor_drawn == old(self).cursor_drawn,
            final(self)@ == (Console { lines: blank_lines(), ..old(self)@ }),
    {
        let empty: Vec<u8> = Vec::new();
        let mut q: usize = 0;
        while q < BUFFER_HEIGHT
            invariant
                self.unpainted(),
                q <= BUFFER_HEIGHT,
                self@.lines.len() == BUFFER_HEIGHT,
                forall|j: int| 0 <= j < q ==> #[trigger] self@.lines[j] == Seq::<u8>::empty(),
                self@.clipboard == old(self)@.clipboard,
                self@.row == old(self)@.row,
                self@.col == old(self)@.col,
                self.cursor_drawn == old(self).cursor_drawn,
                empty@.len() == 0,
            decreases BUFFER_HEIGHT - q,
        {
            self.set_line(q, &empty);
            q = q + 1;
        }
        assert(self@.lines =~= blank_lines());
    }

    /// One byte of console input: the control bytes edit, every other byte
    /// goes through the insertion path.
    fn apply_byte(&mut self, b: u8)
        requires
            old(self).unpainted(),
        ensures
            final(self).unpainted(),
            final(self)@ == byte_applied(old(self)@, b),
    {
        if b == 9 {
            self.tab();
        } else if b == 8 {
            self.backspace();
        } else if b == 27 {
            self.clear_screen();
        } else if b == 12 {
            self.clear_screen();
            let text: Vec<u8> = vec![77u8, 97u8, 114u8, 79u8, 83u8, 58u8, 10u8];
            assert(text@ =~= banner());
            self.put_bytes(&text);
        } else if b == 3 {
            self.copy_line();
        } else if b == 22 {
            self.paste_line();
        } else if b == 127 {
            self.delete_at_cursor();
        } else {
            self.put_byte(b);
        }
    }

    /// Writes one byte of console input. Tab skips a word (or indents an
    /// empty row), backspace deletes before the cursor (joining rows at a
    /// row's start), escape clears the screen, form feed clears it and prints
    /// the banner, Control-C copies the row, Control-V pastes it, delete
    /// removes the character under the cursor; `\n` splits the line at the
    /// cursor, the empty byte is ignored, and any other byte is inserted
    /// under the cursor.
    pub fn write_byte(&mut self, byte: u8)
        requires
            old(self).inv(),
        ensures
            final(self).inv(),
            final(self).drawn(),
            final(self)@ == byte_applied(old(self)@, byte),
    {
        self.erase_cursor();
        self.apply_byte(byte);
        self.paint();
    }

    /// Writes each byte of `s` in turn, as `write_byte` does.
    pub fn write_string(&mut self, s: &str)
        requires
            old(self).inv(),
        ensures
            final(self).inv(),
            final(self).drawn(),
            final(self)@ == bytes_applied(old(self)@, s.spec_bytes()),
    {
        self.write_bytes(s.as_bytes());
    }

    /// Writes each byte of `bytes` in turn, as `write_byte` does.
    pub fn write_bytes(&mut self, bytes: &[u8])
        requires
            old(self).inv(),
        ensures
            final(self).inv(),
            final(self).drawn(),
            final(self)@ == bytes_applied(old(self)@, bytes@),
    {
        self.erase_cursor();
        let mut i: usize = 0;
        while i < bytes.len()
            invariant
                self.unpainted(),
                i <= bytes@.len(),
                self@ == bytes_applied(old(self)@, bytes@.take(i as int)),
            decreases bytes@.len() - i,
        {
            self.apply_byte(bytes[i]);
            assert(bytes@.take(i + 1).drop_last() =~= bytes@.take(i as int));
            i = i + 1;
        }
        assert(bytes@.take(i as int) =~= bytes@);
        self.paint();
    }

    /// Moves the cursor one step left.
    pub fn move_left(&mut self)
        requires
            old(self).inv(),
        ensures
            final(self).inv(),
            final(self).drawn(),
            final(self)@ == step_left(old(self)@),
    {
        self.erase_cursor();
        self.set_relative_position(-1);
        assert(stepped(step_left(old(self)@), 0) == step_left(old(self)@));
        self.paint();
    }

    /// Moves the cursor one step right.
    pub fn move_right(&mut self)
        requires
            old(self).inv(),
        ensures
            final(self).inv(),
            final(self).drawn(),
            final(self)@ == step_right(old(self)@),
    {
        self.erase_cursor();
        self.set_relative_position(1);
        assert(stepped(step_right(old(self)@), 0) == step_right(old(self)@));
        self.paint();
    }

    /// Moves the cursor one row up.
    pub fn move_up(&mut self)
        requires
            old(self).inv(),
        ensures
            final(self).inv(),
            final(self).drawn(),
            final(self)@ == moved_up(old(self)@),
    {
        self.erase_cursor();
        self.move_vertically(true);
        self.paint();
    }

    /// Moves the cursor one row down.
    pub fn move_down(&mut self)
        requires
            old(self).inv(),
        ensures
            final(self).inv(),
            final(self).drawn(),
            final(self)@ == moved_down(old(self)@),
    {
        self.erase_cursor();
        self.move_vertically(false);
        self.paint();
    }

    /// Overwrites every cell with the empty cell. The cursor keeps its
    /// position and is not drawn until the next operation.
    pub fn clear_all(&mut self)
        requires
            old(self).inv(),
        ensures
            final(self).inv(),
            !final(self).drawn(),
            final(self)@ == (Console { lines: blank_lines(), ..old(self)@ }),
            forall|r: int, c: int|
                on_grid(r, c) ==> #[trigger] final(self).cells()[cell_index(r, c)] == empty_cell(),
    {
        self.erase_cursor();
        self.blank_rows();
        assert forall|r: int, c: int| on_grid(r, c) implies #[trigger] self.cells()[cell_index(
            r,
            c,
        )] == empty_cell() by {
            assert(self.buffer.at(r, c).ascii_character == char_at(self.lines@, r, c));
            assert(self.buffer.at(r, c).color_code == ColorCode(DEFAULT_COLOR));
        }
    }

    /// The cursor's row and column.
    pub fn cursor(&self) -> (rc: (usize, usize))
        requires
            self.inv(),
        ensures
            rc.0 == self@.row,
            rc.1 == self@.col,
    {
        (self.row_position, self.column_position)
    }

    /// The cell the display shows at (`row`, `col`).
    pub fn cell(&self, row: usize, col: usize) -> (sc: ScreenChar)
        requires
            self.inv(),
            row < BUFFER_HEIGHT,
            col < BUFFER_WIDTH,
        ensures
            self.drawn() ==> sc == shown_cell(self@, row as int, col as int),
            !self.drawn() ==> sc == plain_cell(self@.lines, row as int, col as int),
    {
        self.buffer.read(row, col)
    }

    /// The text of row `row`.
    pub fn row_text(&self, row: usize) -> (t: Vec<u8>)
        requires
            self.inv(),
            row < BUFFER_HEIGHT,
        ensures
            t@ == self@.lines[row as int],
    {
        self.line(row)
    }

    /// The clipboard register.
    pub fn clipboard(&self) -> (t: Vec<u8>)
        requires
            self.inv(),
        ensures
            t@ == self@.clipboard,
    {
        let t = self.clipboard.clone();
        assert(t@ =~= self.clipboard@);
        t
    }

    /// What the invariant gives: the grid shows the console, with the cursor
    /// drawn on a valid console, or with no cursor drawn.
    pub proof fn lemma_inv(&self)
        requires
            self.inv(),
        ensures
            loose_console(self@),
            self.drawn() ==> forall|r: int, c: int|
                on_grid(r, c) ==> #[trigger] self.cells()[cell_index(r, c)] == shown_cell(self@, r, c),
            !self.drawn() ==> forall|r: int, c: int|
                on_grid(r, c) ==> #[trigger] self.cells()[cell_index(r, c)] == plain_cell(self@.lines, r, c),
            self.cells().len() == BUFFER_HEIGHT * BUFFER_WIDTH,
    {
        if self.drawn() {
            assert forall|r: int, c: int| on_grid(r, c) implies #[trigger] self.cells()[cell_index(
                r,
                c,
            )] == shown_cell(self@, r, c) by {
                assert(self.buffer.at(r, c) == shown_cell(self@, r, c));
            }
        } else {
            assert forall|r: int, c: int| on_grid(r, c) implies #[trigger] self.cells()[cell_index(
                r,
                c,
            )] == plain_cell(self@.lines, r, c) by {
                assert(self.buffer.at(r, c).ascii_character == char_at(self.lines@, r, c));
                assert(self.buffer.at(r, c).color_code == ColorCode(DEFAULT_COLOR));
            }
        }
    }

    /// The grid, row-major.
    pub closed spec fn cells(&self) -> Seq<ScreenChar> {
        self.buffer.chars@
    }
}

} // verus!
