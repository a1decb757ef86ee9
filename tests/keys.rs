use maros::color::{Color, ColorCode};
use maros::console::{handle_key, keyboard_interrupt, timer_interrupt, utf8_of};
use maros::interrupts::{InterruptIndex, QemuExitCode, PIC_1_OFFSET, PIC_2_OFFSET};
use maros::keyboard::{ConsoleKey, KeyboardDecoder};
use maros::writer::Writer;

#[test]
fn color_from_maps_palette_indices() {
    assert_eq!(Color::from(0), Color::Black);
    assert_eq!(Color::from(6), Color::Brown);
    assert_eq!(Color::from(11), Color::LightCyan);
    assert_eq!(Color::from(15), Color::White);
    assert_eq!(Color::from(16), Color::Brown);
    assert_eq!(Color::from(255), Color::Brown);
    for n in 0..16u8 {
        assert_eq!(Color::from(n).index(), n);
    }
}

#[test]
fn color_code_packs_background_high() {
    assert_eq!(ColorCode::new(Color::White, Color::Black), ColorCode(0x0f));
    assert_eq!(ColorCode::new(Color::Black, Color::LightCyan), ColorCode(0xb0));
    assert_eq!(ColorCode::new(Color::Yellow, Color::Blue).value(), 0x1e);
    assert_eq!(ColorCode::new_from(0x4c), ColorCode(0x4c));
}

#[test]
fn interrupt_vectors() {
    assert_eq!(PIC_1_OFFSET, 32);
    assert_eq!(PIC_2_OFFSET, 40);
    assert_eq!(InterruptIndex::Timer.as_u8(), 32);
    assert_eq!(InterruptIndex::Keyboard.as_u8(), 33);
    assert_eq!(InterruptIndex::Keyboard.as_usize(), 33usize);
    assert_eq!(timer_interrupt(), 32);
}

#[test]
fn qemu_exit_codes() {
    assert_eq!(QemuExitCode::Success.code(), 0x10);
    assert_eq!(QemuExitCode::Failed.code(), 0x11);
}

#[test]
fn utf8_of_encodes_each_width() {
    assert_eq!(utf8_of('a'), vec![0x61]);
    assert_eq!(utf8_of('\u{e9}'), vec![0xc3, 0xa9]);
    assert_eq!(utf8_of('\u{20ac}'), vec![0xe2, 0x82, 0xac]);
    assert_eq!(utf8_of('\u{1f600}'), vec![0xf0, 0x9f, 0x98, 0x80]);
    for c in ['x', '\u{7ff}', '\u{800}', '\u{ffff}', '\u{10000}', '\u{10ffff}'] {
        let mut buf = [0u8; 4];
        assert_eq!(utf8_of(c), c.encode_utf8(&mut buf).as_bytes().to_vec());
    }
}

#[test]
fn decoder_turns_press_into_character() {
    let mut d = KeyboardDecoder::new();
    assert_eq!(d.feed(0x1e), Some(ConsoleKey::Char('a')));
    assert_eq!(d.feed(0x9e), None);
}

#[test]
fn decoder_reads_extended_arrow() {
    let mut d = KeyboardDecoder::new();
    assert_eq!(d.feed(0xe0), None);
    assert_eq!(d.feed(0x4b), Some(ConsoleKey::ArrowLeft));
    assert_eq!(d.feed(0xe0), None);
    assert_eq!(d.feed(0x4d), Some(ConsoleKey::ArrowRight));
}

#[test]
fn decoder_applies_shift() {
    let mut d = KeyboardDecoder::new();
    assert_eq!(d.feed(0x2a), Some(ConsoleKey::OtherRaw));
    assert_eq!(d.feed(0x1e), Some(ConsoleKey::Char('A')));
}

#[test]
fn handle_key_moves_and_writes() {
    let mut w = Writer::new();
    handle_key(&mut w, ConsoleKey::Char('h'));
    handle_key(&mut w, ConsoleKey::Char('i'));
    assert_eq!(w.row_text(0), b"hi".to_vec());
    handle_key(&mut w, ConsoleKey::ArrowLeft);
    assert_eq!(w.cursor(), (0, 1));
    handle_key(&mut w, ConsoleKey::ArrowRight);
    assert_eq!(w.cursor(), (0, 2));
    handle_key(&mut w, ConsoleKey::Char('\n'));
    assert_eq!(w.cursor(), (1, 0));
    handle_key(&mut w, ConsoleKey::ArrowUp);
    assert_eq!(w.cursor(), (0, 0));
    handle_key(&mut w, ConsoleKey::ArrowDown);
    assert_eq!(w.cursor(), (1, 0));
    handle_key(&mut w, ConsoleKey::OtherRaw);
    assert_eq!(w.cursor(), (1, 0));
    handle_key(&mut w, ConsoleKey::Char('\u{e9}'));
    assert_eq!(w.row_text(1), vec![0xc3, 0xa9]);
}

#[test]
fn keyboard_interrupt_types_and_names_its_line() {
    let mut d = KeyboardDecoder::new();
    let mut w = Writer::new();
    assert_eq!(keyboard_interrupt(&mut d, &mut w, 0x23), 33);
    assert_eq!(keyboard_interrupt(&mut d, &mut w, 0xa3), 33);
    assert_eq!(keyboard_interrupt(&mut d, &mut w, 0x17), 33);
    assert_eq!(w.row_text(0), b"hi".to_vec());
    assert_eq!(keyboard_interrupt(&mut d, &mut w, 0xe0), 33);
    assert_eq!(keyboard_interrupt(&mut d, &mut w, 0x4b), 33);
    assert_eq!(w.cursor(), (0, 1));
}

#[test]
fn dispatch_of_nothing_leaves_the_console() {
    let mut w = Writer::new();
    w.write_string("ab");
    maros::console::dispatch(&mut w, None);
    assert_eq!(w.cursor(), (0, 2));
    assert_eq!(w.row_text(0), b"ab".to_vec());
    maros::console::dispatch(&mut w, Some(ConsoleKey::ArrowLeft));
    assert_eq!(w.cursor(), (0, 1));
}
