//! Text-buffer engine of a terminal editor: a line index and grapheme-accurate
//! cursor over one mutable text, a sparse cache of highlighter snapshots, and
//! a time-grouped undo history.

pub mod buffer;
pub mod clock;
pub mod find;
pub mod grapheme;
pub mod handle_event;
pub mod help;
pub mod laws;
pub mod lines;
pub mod lsp;
pub mod model;
pub mod notification;
pub mod parse;
pub mod text;
pub mod undo;
pub mod utilities;
pub mod wrap;
