//! The state of an interactive file browser: directory entries, a live
//! regular-expression filter, a browse list and a preview list, each with
//! its own selection, and navigation between directories.

pub mod entry;
pub mod pattern;
pub mod browser;
pub mod laws;
pub mod preview;
