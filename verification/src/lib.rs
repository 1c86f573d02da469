//! Polaris: a local-first markdown editor's document engine, drafts,
//! review and publishing logic, with its contracts proved by Verus.

pub mod text;
pub mod lines;
pub mod markdown;
pub mod preview;
pub mod notion;
pub mod reading;
pub mod editor;
pub mod ffi;
pub mod desktop;
pub mod preview_notes;
pub mod tui;
pub mod deploy;
pub mod deploy_blocks;
pub mod cli;
pub mod paths;
pub mod buffer;
pub mod history;
pub mod typography;
pub mod segment;
pub mod hash;
pub mod cursor;
pub mod document;
pub mod drafts;
pub mod publish;
