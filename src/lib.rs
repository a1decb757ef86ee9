//! The text console of a small kernel: a cursor-addressed character grid with
//! line editing, and the dispatch of decoded keyboard input onto it.

pub mod color;
pub mod model;
pub mod grid;
pub mod writer;
pub mod laws;
pub mod interrupts;
pub mod keyboard;
pub mod console;
