//! The terminal editor: its byte-indexed line buffer and its key handling.

pub mod buffer;
pub mod editor;
