//! Disk-usage analysis and safe deletion of filesystem entries.
//!
//! The library computes recursive, depth-limited sizes of the children of a
//! directory, returns them as entries sorted descending by size, and deletes
//! selected entries after re-validating existence and permissions.

pub mod analyzer;
pub mod cli;
pub mod file_manager;
pub mod fsio;
pub mod platform;
pub mod sorting;
