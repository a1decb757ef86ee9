use vstd::prelude::*;
use vstd::utf8::encode_scalar;
use crate::interrupts::{InterruptIndex, vector_of};
use crate::keyboard::{ConsoleKey, KeyboardDecoder};
use crate::model::{Console, bytes_applied, moved_down, moved_up, step_left, step_right};
use crate::writer::Writer;

verus! {

/// The UTF-8 bytes of `c`.
pub fn utf8_of(c: char) -> (bytes: Vec<u8>)
    ensures
        bytes@ == encode_scalar(c as u32),
{
    let v = c as u32;
    if v <= 0x7F {
        vec![(v & 0x7F) as u8]
    } else if v <= 0x7FF {
        vec![0xC0 | ((v >> 6) & 0x1F) as u8, 0x80 | (v & 0x3F) as u8]
    } else if v <= 0xFFFF && !(0xD800 <= v && v <= 0xDFFF) {
        vec![0xE0 | ((v >> 12) & 0x0F) as u8, 0x80 | ((v >> 6) & 0x3F) as u8, 0x80 | (v & 0x3F) as u8]
    } else {
        vec![
            0xF0 | ((v >> 18) & 0x7) as u8,
            0x80 | ((v >> 12) & 0x3F) as u8,
            0x80 | ((v >> 6) & 0x3F) as u8,
            0x80 | (v & 0x3F) as u8,
        ]
    }
}

/// What a key does to the console: the arrows move the cursor, a character
/// is written as its UTF-8 bytes, any other key does nothing (and leaves the
/// writer untouched).
pub open spec fn key_applied(s: Console, key: ConsoleKey) -> Console {
    match key {
        ConsoleKey::ArrowLeft => step_left(s),
        ConsoleKey::ArrowRight => step_right(s),
        ConsoleKey::ArrowUp => moved_up(s),
        ConsoleKey::ArrowDown => moved_down(s),
        ConsoleKey::OtherRaw => s,
        ConsoleKey::Char(c) => bytes_applied(s, encode_scalar(c as u32)),
    }
}

/// Carries out a decoded key on the console.
pub fn handle_key(writer: &mut Writer, key: ConsoleKey)
    requires
        old(writer).inv(),
    ensures
        final(writer).inv(),
        key != ConsoleKey::OtherRaw ==> final(writer).drawn() && final(writer)@ == key_applied(
            old(writer)@,
            key,
        ),
        key == ConsoleKey::OtherRaw ==> final(writer)@ == old(writer)@ && final(writer).drawn()
            == old(writer).drawn(),
{
    match key {
        ConsoleKey::ArrowLeft => writer.move_left(),
        ConsoleKey::ArrowRight => writer.move_right(),
        ConsoleKey::ArrowUp => writer.move_up(),
        ConsoleKey::ArrowDown => writer.move_down(),
        ConsoleKey::OtherRaw => {},
        ConsoleKey::Char(c) => {
            let bytes = utf8_of(c);
            writer.write_bytes(bytes.as_slice());
        },
    }
}

/// The body of the keyboard interrupt: the scancode read from the keyboard
/// goes to the decoder, a key that comes out is carried out on the console,
/// and the line to acknowledge (the keyboard's) is returned.
pub fn keyboard_interrupt(decoder: &mut KeyboardDecoder, writer: &mut Writer, scancode: u8) -> (line: u8)
    requires
        old(writer).inv(),
    ensures
        line == vector_of(InterruptIndex::Keyboard),
        final(writer).inv(),
        final(writer)@ == old(writer)@ || exists|key: ConsoleKey|
            final(writer)@ == #[trigger] key_applied(old(writer)@, key),
{
    let key = decoder.feed(scancode);
    dispatch(writer, key);
    InterruptIndex::Keyboard.as_u8()
}

/// Carries out what the decoder produced: a key, or nothing at all when no
/// key came out.
pub fn dispatch(writer: &mut Writer, key: Option<ConsoleKey>)
    requires
        old(writer).inv(),
    ensures
        final(writer).inv(),
        key is None ==> final(writer)@ == old(writer)@,
        key is None ==> final(writer).drawn() == old(writer).drawn(),
        key is Some && key->0 != ConsoleKey::OtherRaw ==> final(writer).drawn(),
        key is Some && key->0 != ConsoleKey::OtherRaw ==> final(writer)@ == key_applied(
            old(writer)@,
            key->0,
        ),
        key == Some(ConsoleKey::OtherRaw) ==> final(writer)@ == old(writer)@,
        key == Some(ConsoleKey::OtherRaw) ==> final(writer).drawn() == old(writer).drawn(),
{
    match key {
        Some(k) => handle_key(writer, k),
        None => {},
    }
}

/// The body of the timer interrupt: nothing to do but name the line to
/// acknowledge (the timer's).
pub fn timer_interrupt() -> (line: u8)
    ensures
        line == vector_of(InterruptIndex::Timer),
{
    InterruptIndex::Timer.as_u8()
}

} // verus!
