//! Which scanned files are shims, which are stale, and what a scan reports.

use vstd::prelude::*;
use crate::analyzer::{dormant_at, is_dormant_at};
use crate::models::BinaryInfo;
use crate::text::{in_names, names_contain};
use crate::time::Timestamp;

verus! {

/// How a scan classifies one file.
#[derive(Clone, Copy, Debug, PartialEq, Eq, Structural)]
pub enum ScanStatus {
    /// A zero-byte `.exe` placeholder, never archived.
    Shim,
    /// Dormant past the threshold.
    Stale,
    /// Used recently enough.
    Fresh,
}

/// One row a scan shows: the record's position and its status.
#[derive(Clone, Copy, Debug, PartialEq, Eq, Structural)]
pub struct ScanRow {
    pub index: usize,
    pub status: ScanStatus,
}

/// What a scan reports: the rows to show and the counts over every file not ignored.
#[derive(Clone, Debug)]
pub struct ScanSummary {
    pub rows: Vec<ScanRow>,
    pub stale_count: u64,
    pub ok_count: u64,
    pub shim_count: u64,
    /// Total size of the stale files, saturating at `u64::MAX`.
    pub stale_total_bytes: u64,
}

/// Which rows a scan shows besides stale ones.
#[derive(Clone, Copy, Debug, PartialEq, Eq, Structural)]
pub struct ScanFilter {
    pub verbose: bool,
    pub hide_ok: bool,
    pub hide_shim: bool,
}

/// `c` is the letter e in either case.
pub open spec fn is_e(c: char) -> bool {
    c == 'e' || c == 'E'
}

/// The file name ends in `.exe`, in any letter case, after a non-empty stem: the
/// name's extension is `exe`.
pub open spec fn has_exe_extension(name: Seq<char>) -> bool {
    let n = name.len();
    &&& n > 4
    &&& name[n - 4] == '.'
    &&& is_e(name[n - 3])
    &&& (name[n - 2] == 'x' || name[n - 2] == 'X')
    &&& is_e(name[n - 1])
}

/// A zero-byte file with an `exe` extension: an execution alias placeholder.
pub open spec fn probable_shim(size: u64, name: Seq<char>) -> bool {
    size == 0 && has_exe_extension(name)
}

/// The status a scan gives a record.
pub open spec fn status_of(b: BinaryInfo, days: i64, now: Timestamp) -> ScanStatus {
    if probable_shim(b.size, b.name@) {
        ScanStatus::Shim
    } else if dormant_at(b.last_used, days, now) {
        ScanStatus::Stale
    } else {
        ScanStatus::Fresh
    }
}

/// Whether a row of that status is shown under `filter`.
pub open spec fn row_visible(status: ScanStatus, filter: ScanFilter) -> bool {
    match status {
        ScanStatus::Stale => true,
        ScanStatus::Shim => !filter.hide_shim,
        ScanStatus::Fresh => filter.verbose && !filter.hide_ok,
    }
}

/// A record is archived when it is not ignored, not a shim, and dormant.
pub open spec fn archive_wanted(
    b: BinaryInfo,
    ignored: Seq<String>,
    days: i64,
    now: Timestamp,
) -> bool {
    !in_names(ignored, b.name@) && status_of(b, days, now) == ScanStatus::Stale
}

/// Positions of the records to archive, in order.
pub open spec fn archive_indices(
    bins: Seq<BinaryInfo>,
    ignored: Seq<String>,
    days: i64,
    now: Timestamp,
) -> Seq<usize>
    decreases bins.len(),
{
    if bins.len() == 0 {
        Seq::empty()
    } else {
        let before = archive_indices(bins.drop_last(), ignored, days, now);
        if archive_wanted(bins.last(), ignored, days, now) {
            before.push((bins.len() - 1) as usize)
        } else {
            before
        }
    }
}

/// `a + b`, saturating at `u64::MAX`.
pub open spec fn saturating_sum(a: int, b: int) -> int {
    if a + b > u64::MAX as int {
        u64::MAX as int
    } else {
        a + b
    }
}

/// The summary a scan reports: rows shown, stale/ok/shim counts and stale bytes.
pub open spec fn scan_summary(
    bins: Seq<BinaryInfo>,
    ignored: Seq<String>,
    days: i64,
    now: Timestamp,
    filter: ScanFilter,
) -> (Seq<ScanRow>, nat, nat, nat, int)
    decreases bins.len(),
{
    if bins.len() == 0 {
        (Seq::empty(), 0, 0, 0, 0)
    } else {
        let (rows, stale, ok, shim, bytes) = scan_summary(
            bins.drop_last(),
            ignored,
            days,
            now,
            filter,
        );
        let b = bins.last();
        let status = status_of(b, days, now);
        if in_names(ignored, b.name@) {
            (rows, stale, ok, shim, bytes)
        } else {
            let rows2 = if row_visible(status, filter) {
                rows.push(ScanRow { index: (bins.len() - 1) as usize, status })
            } else {
                rows
            };
            match status {
                ScanStatus::Stale => (rows2, stale + 1, ok, shim, saturating_sum(bytes, b.size as int)),
                ScanStatus::Fresh => (rows2, stale, ok + 1, shim, bytes),
                ScanStatus::Shim => (rows2, stale, ok, shim + 1, bytes),
            }
        }
    }
}

/// Whether `c` is `lower` or `upper`.
fn char_is(c: char, lower: char, upper: char) -> (r: bool)
    ensures
        r == (c == lower || c == upper),
{
    c == lower || c == upper
}

/// Whether a file of this size and name is a zero-byte `.exe` placeholder.
pub fn is_probable_shim(size: u64, name: &str) -> (r: bool)
    ensures
        r == probable_shim(size, name@),
{
    if size != 0 {
        return false;
    }
    let n = name.unicode_len();
    if n <= 4 {
        return false;
    }
    name.get_char(n - 4) == '.' && char_is(name.get_char(n - 3), 'e', 'E') && char_is(
        name.get_char(n - 2),
        'x',
        'X',
    ) && char_is(name.get_char(n - 1), 'e', 'E')
}

/// The status a scan gives `bin` at instant `now` for a threshold in days.
pub fn classify(bin: &BinaryInfo, days: i64, now: Timestamp) -> (r: ScanStatus)
    ensures
        r == status_of(*bin, days, now),
{
    if is_probable_shim(bin.size, bin.name.as_str()) {
        ScanStatus::Shim
    } else if is_dormant_at(bin.last_used, days, now) {
        ScanStatus::Stale
    } else {
        ScanStatus::Fresh
    }
}

/// Whether a row of that status is shown under `filter`.
pub fn is_row_visible(status: ScanStatus, filter: ScanFilter) -> (r: bool)
    ensures
        r == row_visible(status, filter),
{
    match status {
        ScanStatus::Stale => true,
        ScanStatus::Shim => !filter.hide_shim,
        ScanStatus::Fresh => filter.verbose && !filter.hide_ok,
    }
}

/// Positions of the records to archive at instant `now`: not ignored, not a shim, and
/// dormant past `days`; in scan order.
pub fn select_archive_candidates(
    binaries: &Vec<BinaryInfo>,
    ignored_bins: &Vec<String>,
    days: i64,
    now: Timestamp,
) -> (r: Vec<usize>)
    ensures
        r@ == archive_indices(binaries@, ignored_bins@, days, now),
{
    let mut picked: Vec<usize> = Vec::new();
    let mut i: usize = 0;
    while i < binaries.len()
        invariant
            i <= binaries@.len(),
            picked@ == archive_indices(binaries@.subrange(0, i as int), ignored_bins@, days, now),
        decreases binaries@.len() - i,
    {
        let ghost before = binaries@.subrange(0, i as int);
        assert(binaries@.subrange(0, i + 1).drop_last() =~= before);
        let bin = &binaries[i];
        if !names_contain(ignored_bins, &bin.name) && classify(bin, days, now)
            == ScanStatus::Stale {
            picked.push(i);
        }
        i = i + 1;
    }
    assert(binaries@.subrange(0, i as int) =~= binaries@);
    picked
}

/// Classifies every record not ignored at instant `now`, counts each status, sums the
/// sizes of the stale ones, and lists the rows `filter` shows, in scan order.
pub fn summarize_scan(
    binaries: &Vec<BinaryInfo>,
    ignored_bins: &Vec<String>,
    days: i64,
    now: Timestamp,
    filter: ScanFilter,
) -> (r: ScanSummary)
    ensures
        scan_summary(binaries@, ignored_bins@, days, now, filter) == (
            r.rows@,
            r.stale_count as nat,
            r.ok_count as nat,
            r.shim_count as nat,
            r.stale_total_bytes as int,
        ),
{
    let mut rows: Vec<ScanRow> = Vec::new();
    let mut stale: u64 = 0;
    let mut ok: u64 = 0;
    let mut shim: u64 = 0;
    let mut bytes: u64 = 0;
    let mut i: usize = 0;
    while i < binaries.len()
        invariant
            i <= binaries@.len(),
            stale + ok + shim <= i,
            scan_summary(binaries@.subrange(0, i as int), ignored_bins@, days, now, filter) == (
                rows@,
                stale as nat,
                ok as nat,
                shim as nat,
                bytes as int,
            ),
        decreases binaries@.len() - i,
    {
        let ghost before = binaries@.subrange(0, i as int);
        assert(binaries@.subrange(0, i + 1).drop_last() =~= before);
        let bin = &binaries[i];
        if !names_contain(ignored_bins, &bin.name) {
            let status = classify(bin, days, now);
            if is_row_visible(status, filter) {
                rows.push(ScanRow { index: i, status });
            }
            match status {
                ScanStatus::Stale => {
                    stale = stale + 1;
                    bytes = bytes.saturating_add(bin.size);
                },
                ScanStatus::Fresh => {
                    ok = ok + 1;
                },
                ScanStatus::Shim => {
                    shim = shim + 1;
                },
            }
        }
        i = i + 1;
    }
    assert(binaries@.subrange(0, i as int) =~= binaries@);
    ScanSummary {
        rows,
        stale_count: stale,
        ok_count: ok,
        shim_count: shim,
        stale_total_bytes: bytes,
    }
}

} // verus!
