//! Writer-friendly version control: word diffs, accept/reject review of an
//! edited copy, inline notes, and the snapshot manifest. No UI and no clock
//! (callers pass unix milliseconds); the files live beside the document and
//! the front-end reads and writes them.

pub mod diff;
pub mod review;
pub mod notes;
pub mod store;
