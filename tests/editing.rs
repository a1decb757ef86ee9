use maros::color::{ColorCode, ScreenChar, CURSOR_COLOR, DEFAULT_COLOR};
use maros::model::{BUFFER_HEIGHT, BUFFER_WIDTH};
use maros::writer::Writer;

fn row(w: &Writer, r: usize) -> String {
    String::from_utf8(w.row_text(r)).unwrap()
}

fn type_str(w: &mut Writer, s: &str) {
    w.write_string(s);
}

#[test]
fn new_writer_is_blank_with_cursor_drawn() {
    let w = Writer::new();
    assert_eq!(w.cursor(), (0, 0));
    assert_eq!(
        w.cell(0, 0),
        ScreenChar { ascii_character: 0, color_code: ColorCode(CURSOR_COLOR) }
    );
    assert_eq!(
        w.cell(0, 1),
        ScreenChar { ascii_character: 0, color_code: ColorCode(DEFAULT_COLOR) }
    );
    for r in 0..BUFFER_HEIGHT {
        assert!(w.row_text(r).is_empty());
    }
    assert!(w.clipboard().is_empty());
}

#[test]
fn typing_round_trip() {
    let mut w = Writer::new();
    type_str(&mut w, "hello, world");
    assert_eq!(row(&w, 0), "hello, world");
    assert_eq!(w.cursor(), (0, 12));
    assert_eq!(w.cell(0, 0).ascii_character, b'h');
    assert_eq!(w.cell(0, 0).color_code, ColorCode(DEFAULT_COLOR));
    assert_eq!(w.cell(0, 12).color_code, ColorCode(CURSOR_COLOR));
}

#[test]
fn typing_a_full_row_keeps_it_on_its_row() {
    let mut w = Writer::new();
    let s: String = (0..BUFFER_WIDTH).map(|i| (b'a' + (i % 26) as u8) as char).collect();
    type_str(&mut w, &s);
    assert_eq!(row(&w, 0), s);
    assert_eq!(w.cursor(), (1, 0));
}

#[test]
fn wrap_propagation() {
    let mut w = Writer::new();
    let s: String = (0..BUFFER_WIDTH + 1).map(|i| (b'a' + (i % 26) as u8) as char).collect();
    type_str(&mut w, &s);
    let bytes = s.as_bytes();
    assert_eq!(w.row_text(0).len(), BUFFER_WIDTH);
    assert_eq!(w.row_text(0)[BUFFER_WIDTH - 1], bytes[BUFFER_WIDTH - 1]);
    assert_eq!(w.row_text(1), vec![bytes[BUFFER_WIDTH]]);
    assert_eq!(w.cursor(), (1, 1));
}

#[test]
fn line_split() {
    let mut w = Writer::new();
    type_str(&mut w, "abcdef");
    for _ in 0..3 {
        w.move_left();
    }
    assert_eq!(w.cursor(), (0, 3));
    w.write_byte(b'\n');
    assert_eq!(row(&w, 0), "abc");
    assert_eq!(row(&w, 1), "def");
    assert_eq!(w.cursor(), (1, 0));
}

#[test]
fn line_split_pushes_existing_text_right() {
    let mut w = Writer::new();
    type_str(&mut w, "abcd\nxy");
    w.move_up();
    assert_eq!(w.cursor(), (0, 2));
    type_str(&mut w, "\n");
    assert_eq!(row(&w, 0), "ab");
    assert_eq!(row(&w, 1), "cdxy");
}

#[test]
fn backspace_merge() {
    let mut w = Writer::new();
    type_str(&mut w, "ab\nxyz\nrest");
    w.move_up();
    assert_eq!(w.cursor(), (1, 2));
    for _ in 0..2 {
        w.move_left();
    }
    assert_eq!(w.cursor(), (1, 0));
    type_str(&mut w, "\x08");
    assert_eq!(row(&w, 0), "abxyz");
    assert_eq!(row(&w, 1), "");
    assert_eq!(row(&w, 2), "rest");
    assert_eq!(w.cursor(), (0, 2));
}

#[test]
fn backspace_deletes_before_cursor() {
    let mut w = Writer::new();
    type_str(&mut w, "abcd");
    w.move_left();
    type_str(&mut w, "\x08");
    assert_eq!(row(&w, 0), "abd");
    assert_eq!(w.cursor(), (0, 2));
}

#[test]
fn copy_paste_idempotence() {
    let mut w = Writer::new();
    type_str(&mut w, "first\nsecond line");
    type_str(&mut w, "\x03");
    assert_eq!(w.clipboard(), b"second line".to_vec());
    type_str(&mut w, "\x16");
    assert_eq!(row(&w, 0), "first");
    assert_eq!(row(&w, 1), "second line");
    assert_eq!(w.cursor(), (1, 11));
}

#[test]
fn paste_replaces_another_row() {
    let mut w = Writer::new();
    type_str(&mut w, "copy me\x03\nold text\x16");
    assert_eq!(row(&w, 0), "copy me");
    assert_eq!(row(&w, 1), "copy me");
    assert_eq!(w.cursor(), (1, 7));
}

#[test]
fn tab_skip() {
    let mut w = Writer::new();
    type_str(&mut w, "hello world");
    for _ in 0..11 {
        w.move_left();
    }
    assert_eq!(w.cursor(), (0, 0));
    type_str(&mut w, "\t");
    assert_eq!(w.cursor(), (0, 5));
    assert_eq!(row(&w, 0), "hello world");
}

#[test]
fn tab_on_empty_row_types_four_spaces() {
    let mut w = Writer::new();
    type_str(&mut w, "\tx");
    assert_eq!(row(&w, 0), "    x");
    assert_eq!(w.cursor(), (0, 5));
}

#[test]
fn scroll_at_bottom() {
    let mut w = Writer::new();
    type_str(&mut w, "top\nsecond");
    for _ in 0..(BUFFER_HEIGHT - 2) {
        type_str(&mut w, "\n");
    }
    type_str(&mut w, "last");
    assert_eq!(w.cursor(), (BUFFER_HEIGHT - 1, 4));
    type_str(&mut w, "\n");
    assert_eq!(row(&w, 0), "second");
    assert_eq!(row(&w, BUFFER_HEIGHT - 2), "last");
    assert_eq!(row(&w, BUFFER_HEIGHT - 1), "");
    assert_eq!(w.cursor(), (BUFFER_HEIGHT - 1, 0));
}

#[test]
fn typing_past_the_last_cell_scrolls() {
    let mut w = Writer::new();
    for _ in 0..(BUFFER_HEIGHT - 1) {
        type_str(&mut w, "\n");
    }
    let s: String = std::iter::repeat('z').take(BUFFER_WIDTH).collect();
    type_str(&mut w, &s);
    assert_eq!(row(&w, BUFFER_HEIGHT - 2), s);
    assert_eq!(row(&w, BUFFER_HEIGHT - 1), "");
    assert_eq!(w.cursor(), (BUFFER_HEIGHT - 1, 0));
}

#[test]
fn insert_in_middle_shifts_right() {
    let mut w = Writer::new();
    type_str(&mut w, "acd");
    w.move_left();
    w.move_left();
    type_str(&mut w, "b");
    assert_eq!(row(&w, 0), "abcd");
    assert_eq!(w.cursor(), (0, 2));
}

#[test]
fn insert_into_full_row_carries_overflow_down() {
    let mut w = Writer::new();
    let full: String = std::iter::repeat('a').take(BUFFER_WIDTH - 1).chain(std::iter::once('Z')).collect();
    type_str(&mut w, &full);
    type_str(&mut w, "next");
    assert_eq!(w.cursor(), (1, 4));
    w.move_up();
    w.move_left();
    assert_eq!(w.cursor(), (0, 3));
    type_str(&mut w, "!");
    let r0 = w.row_text(0);
    assert_eq!(r0.len(), BUFFER_WIDTH);
    assert_eq!(r0[3], b'!');
    assert_eq!(r0[BUFFER_WIDTH - 1], b'a');
    assert_eq!(row(&w, 1), "Znext");
    assert_eq!(w.cursor(), (0, 4));
}

#[test]
fn delete_removes_char_under_cursor() {
    let mut w = Writer::new();
    type_str(&mut w, "abcd");
    w.move_left();
    w.move_left();
    type_str(&mut w, "\x7f");
    assert_eq!(row(&w, 0), "abd");
    assert_eq!(w.cursor(), (0, 2));
}

#[test]
fn escape_clears_everything() {
    let mut w = Writer::new();
    type_str(&mut w, "one\ntwo\x1b");
    assert_eq!(row(&w, 0), "");
    assert_eq!(row(&w, 1), "");
    assert_eq!(w.cursor(), (0, 0));
}

#[test]
fn form_feed_clears_and_prints_banner() {
    let mut w = Writer::new();
    type_str(&mut w, "one\ntwo\x0c");
    assert_eq!(row(&w, 0), "MarOS:");
    assert_eq!(row(&w, 1), "");
    assert_eq!(w.cursor(), (1, 0));
}

#[test]
fn clear_all_empties_every_cell() {
    let mut w = Writer::new();
    type_str(&mut w, "abc\ndef");
    type_str(&mut w, "\x03");
    w.clear_all();
    let empty = ScreenChar { ascii_character: 0, color_code: ColorCode(DEFAULT_COLOR) };
    for r in 0..BUFFER_HEIGHT {
        assert_eq!(row(&w, r), "");
        for c in 0..BUFFER_WIDTH {
            assert_eq!(w.cell(r, c), empty);
        }
    }
    assert_eq!(w.cursor(), (1, 3));
    assert_eq!(w.clipboard(), b"def".to_vec());
}

#[test]
fn typing_after_clear_all_starts_at_the_row_start() {
    let mut w = Writer::new();
    type_str(&mut w, "abc\ndef");
    w.clear_all();
    type_str(&mut w, "x");
    assert_eq!(row(&w, 1), "x");
    assert_eq!(w.cursor(), (1, 1));
    assert_eq!(w.cell(1, 1).color_code, ColorCode(CURSOR_COLOR));
}

#[test]
fn nul_byte_is_ignored() {
    let mut w = Writer::new();
    type_str(&mut w, "ab");
    w.write_byte(0);
    assert_eq!(row(&w, 0), "ab");
    assert_eq!(w.cursor(), (0, 2));
}

#[test]
fn move_left_from_column_zero_goes_to_end_of_row_above() {
    let mut w = Writer::new();
    type_str(&mut w, "abc\n");
    w.move_left();
    assert_eq!(w.cursor(), (0, 3));
}

#[test]
fn move_right_past_text_goes_to_next_row() {
    let mut w = Writer::new();
    type_str(&mut w, "ab");
    w.move_right();
    assert_eq!(w.cursor(), (1, 0));
}

#[test]
fn move_up_and_down_keep_column_within_text() {
    let mut w = Writer::new();
    type_str(&mut w, "ab\nlonger");
    w.move_up();
    assert_eq!(w.cursor(), (0, 1));
    w.move_down();
    assert_eq!(w.cursor(), (1, 1));
    w.move_up();
    w.move_up();
    assert_eq!(w.cursor(), (0, 1));
}

#[test]
fn cursor_color_follows_cursor() {
    let mut w = Writer::new();
    type_str(&mut w, "ab");
    w.move_left();
    assert_eq!(w.cell(0, 1).color_code, ColorCode(CURSOR_COLOR));
    assert_eq!(w.cell(0, 2).color_code, ColorCode(DEFAULT_COLOR));
    assert_eq!(w.cell(0, 1).ascii_character, b'b');
}

#[test]
fn row_packing_after_mixed_editing() {
    let mut w = Writer::new();
    type_str(&mut w, "alpha beta\ngamma\x08\x08\x7f de\tlta\n\n\x08x\x03\x16 more\tend");
    w.move_up();
    type_str(&mut w, "\x08\x08\nq");
    let mut cursors = 0;
    for r in 0..BUFFER_HEIGHT {
        let mut seen_empty = false;
        for c in 0..BUFFER_WIDTH {
            let cell = w.cell(r, c);
            if cell.color_code == ColorCode(CURSOR_COLOR) {
                cursors += 1;
            }
            if cell.ascii_character == 0 {
                seen_empty = true;
            } else {
                assert!(!seen_empty, "character after an empty cell in row {}", r);
            }
        }
    }
    assert_eq!(cursors, 1);
}

#[test]
fn write_byte_handles_control_bytes() {
    let mut w = Writer::new();
    for b in b"abc" {
        w.write_byte(*b);
    }
    w.write_byte(0x08);
    assert_eq!(row(&w, 0), "ab");
    w.write_byte(0x03);
    assert_eq!(w.clipboard(), b"ab".to_vec());
    w.write_byte(b'\n');
    w.write_byte(0x16);
    assert_eq!(row(&w, 1), "ab");
    assert_eq!(w.cursor(), (1, 2));
    w.write_byte(0x1b);
    assert_eq!(row(&w, 0), "");
    assert_eq!(w.cursor(), (0, 0));
}

#[test]
fn other_bytes_are_inserted_as_characters() {
    let mut w = Writer::new();
    w.write_byte(0x01);
    w.write_byte(0xfe);
    assert_eq!(w.row_text(0), vec![0x01, 0xfe]);
    assert_eq!(w.cursor(), (0, 2));
}

fn cleared_with_cursor_past_text() -> Writer {
    let mut w = Writer::new();
    type_str(&mut w, "\n\nab");
    w.clear_all();
    assert_eq!(w.cursor(), (2, 2));
    w
}

#[test]
fn move_left_after_clear_all_steps_from_the_cursor() {
    let mut w = cleared_with_cursor_past_text();
    w.move_left();
    assert_eq!(w.cursor(), (2, 1));
    assert_eq!(w.cell(2, 1).color_code, ColorCode(CURSOR_COLOR));
}

#[test]
fn delete_after_clear_all_keeps_the_cursor() {
    let mut w = cleared_with_cursor_past_text();
    type_str(&mut w, "\x7f");
    assert_eq!(w.cursor(), (2, 2));
    assert_eq!(row(&w, 2), "");
}

#[test]
fn backspace_after_clear_all_steps_left() {
    let mut w = cleared_with_cursor_past_text();
    type_str(&mut w, "\x08");
    assert_eq!(w.cursor(), (2, 1));
    assert_eq!(row(&w, 1), "");
}

#[test]
fn tab_after_clear_all_stays_put() {
    let mut w = cleared_with_cursor_past_text();
    type_str(&mut w, "\t");
    assert_eq!(w.cursor(), (2, 2));
    assert_eq!(row(&w, 2), "");
}

#[test]
fn vertical_moves_at_the_edges_keep_the_column() {
    let mut w = Writer::new();
    type_str(&mut w, "abc");
    w.clear_all();
    w.move_up();
    assert_eq!(w.cursor(), (0, 3));
    let mut w = Writer::new();
    for _ in 0..(BUFFER_HEIGHT - 1) {
        type_str(&mut w, "\n");
    }
    type_str(&mut w, "abc");
    w.clear_all();
    w.move_down();
    assert_eq!(w.cursor(), (BUFFER_HEIGHT - 1, 3));
}

#[test]
fn newline_after_clear_all_splits_at_row_start() {
    let mut w = cleared_with_cursor_past_text();
    type_str(&mut w, "\n");
    assert_eq!(w.cursor(), (3, 0));
    assert_eq!(row(&w, 2), "");
    assert_eq!(row(&w, 3), "");
}
