//! Finding build result links: symbolic links named `result` or `result-*`
//! that point at a top-level entry of a package store.
//!
//! The library holds the decisions; walking a directory tree, reading link
//! targets and unlinking are left to the caller, who hands over plain bytes.

pub mod classify;
pub mod config;
pub mod laws;
pub mod name;
pub mod path;
pub mod path_laws;
pub mod report;
