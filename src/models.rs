//! The records a scan produces and the settings the core reads.

use vstd::prelude::*;
use crate::analyzer::{chosen_time, select_last_used_time, FileInfo, LastUsedSource};
use crate::time::Timestamp;

verus! {

/// One file seen by a scan, with its derived "last used" instant.
#[derive(Clone, Debug)]
pub struct BinaryInfo {
    pub name: String,
    pub path: String,
    pub size: u64,
    pub accessed: Option<Timestamp>,
    pub modified: Option<Timestamp>,
    pub last_used: Timestamp,
    pub last_used_source: LastUsedSource,
    pub is_symlink: bool,
}

/// The settings the core works with, however they were loaded.
#[derive(Clone, Debug)]
pub struct Config {
    /// File names that are never reported or archived.
    pub ignored_bins: Vec<String>,
    /// Where archived files go.
    pub archive_path: String,
    /// Age, in whole days, past which a file counts as dormant.
    pub default_threshold_days: i64,
    /// Whether the access time is preferred over the modification time where a scan
    /// may itself refresh access times.
    pub windows_use_access_time: bool,
}

/// `b` with only its "last used" instant and source replaced.
pub open spec fn with_last_used(b: BinaryInfo, t: Timestamp, s: LastUsedSource) -> BinaryInfo {
    BinaryInfo { last_used: t, last_used_source: s, ..b }
}

impl BinaryInfo {
    /// The record of one scanned file: its raw timestamps as read, and the "last used"
    /// instant chosen from them.
    pub fn from_file_info(
        name: String,
        path: String,
        info: FileInfo,
        is_symlink: bool,
        prefer_accessed: bool,
    ) -> (r: BinaryInfo)
        ensures
            r.name == name,
            r.path == path,
            r.size == info.size,
            r.accessed == info.times.accessed,
            r.modified == info.times.modified,
            r.is_symlink == is_symlink,
            chosen_time(info.times, prefer_accessed) matches Some(p) ==> (
                r.last_used,
                r.last_used_source,
            ) == p,
            (r.last_used_source == LastUsedSource::Unknown) <==> (info.times.accessed is None
                && info.times.modified is None),
    {
        let (last_used, last_used_source) = select_last_used_time(info.times, prefer_accessed);
        BinaryInfo {
            name,
            path,
            size: info.size,
            accessed: info.times.accessed,
            modified: info.times.modified,
            last_used,
            last_used_source,
            is_symlink,
        }
    }
}

} // verus!
