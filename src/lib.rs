//! Staleness detection and archive bookkeeping for binaries in watched directories.
//!
//! The library decides which files count as unused, keeps the ordered record of
//! archived files that restores are driven from, and chooses collision-free archive
//! names. Reading the file system and printing are left to the caller.

pub mod time;
pub mod analyzer;
pub mod archive_manifest;
pub mod models;
pub mod contamination;
pub mod text;
pub mod relocator;
pub mod selection;
pub mod ui;
pub mod mounts;
