//! Core of a minimal modal terminal text editor: a text buffer organized as
//! lines of characters, and the modal input/edit state machine that drives it.
//! Terminal I/O (raw mode, event polling, painting) lives outside this crate;
//! the library only computes buffer contents, cursor positions and the text to
//! display.

pub mod buffer;
pub mod editor;
