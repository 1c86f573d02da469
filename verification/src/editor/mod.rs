//! The editor's line buffer, as the desktop app keeps it.

pub mod buffer;
