use vstd::prelude::*;
use pc_keyboard::layouts::Us104Key;
use pc_keyboard::{DecodedKey, HandleControl, KeyCode, KeyEvent, Keyboard, ScancodeSet1};

verus! {

#[verifier::external_type_specification]
#[verifier::external_body]
pub struct ExKeyEvent(KeyEvent);

#[verifier::external_type_specification]
#[verifier::external_body]
pub struct ExKeyboardError(pc_keyboard::Error);

/// A decoded key, as the console uses it.
#[derive(Debug, Clone, Copy, PartialEq, Eq, Structural)]
pub enum ConsoleKey {
    ArrowLeft,
    ArrowRight,
    ArrowUp,
    ArrowDown,
    /// Any other key that has no character.
    OtherRaw,
    /// A key that stands for a character.
    Char(char),
}

/// The scancode decoder state: pc_keyboard's `Keyboard`, which collects the
/// bytes of a scancode across interrupts and tracks the modifier keys. Its
/// type cannot be declared to the verifier (its bounds name pc_keyboard's
/// traits), so the decoder is held here, opaque, and reached only through
/// the functions below.
#[verifier::external_body]
pub struct KeyboardDecoder {
    keyboard: Keyboard<Us104Key, ScancodeSet1>,
}

/// Relies on pc_keyboard's `Keyboard::new`: a decoder for scancode set 1
/// and the US 104-key layout, mapping Control+letter to control characters.
#[verifier::external_body]
fn new_keyboard() -> KeyboardDecoder {
    KeyboardDecoder {
        keyboard: Keyboard::new(ScancodeSet1::new(), Us104Key, HandleControl::MapLettersToUnicode),
    }
}

/// Relies on pc_keyboard's `Keyboard::add_byte`: feeds one scancode byte to
/// the decoder; the outcome depends on the bytes fed before.
#[verifier::external_body]
fn add_byte(decoder: &mut KeyboardDecoder, byte: u8) -> Result<Option<KeyEvent>, pc_keyboard::Error> {
    decoder.keyboard.add_byte(byte)
}

/// Relies on pc_keyboard's `Keyboard::process_keyevent`: resolves a key
/// event against the layout and the modifier state; the decoded key is
/// handed back as a `ConsoleKey`.
#[verifier::external_body]
fn process_keyevent(decoder: &mut KeyboardDecoder, ev: KeyEvent) -> Option<ConsoleKey> {
    match decoder.keyboard.process_keyevent(ev) {
        Some(DecodedKey::RawKey(KeyCode::ArrowLeft)) => Some(ConsoleKey::ArrowLeft),
        Some(DecodedKey::RawKey(KeyCode::ArrowRight)) => Some(ConsoleKey::ArrowRight),
        Some(DecodedKey::RawKey(KeyCode::ArrowUp)) => Some(ConsoleKey::ArrowUp),
        Some(DecodedKey::RawKey(KeyCode::ArrowDown)) => Some(ConsoleKey::ArrowDown),
        Some(DecodedKey::RawKey(_)) => Some(ConsoleKey::OtherRaw),
        Some(DecodedKey::Unicode(c)) => Some(ConsoleKey::Char(c)),
        None => None,
    }
}

impl KeyboardDecoder {
    pub fn new() -> KeyboardDecoder {
        new_keyboard()
    }

    /// Feeds one scancode byte. A key comes back once the byte completes a
    /// key event that resolves to a key; a partial sequence, a byte the
    /// decoder rejects or an event with no key gives `None`.
    pub fn feed(&mut self, scancode: u8) -> Option<ConsoleKey> {
        match add_byte(self, scancode) {
            Ok(Some(ev)) => process_keyevent(self, ev),
            _ => None,
        }
    }
}

} // verus!
