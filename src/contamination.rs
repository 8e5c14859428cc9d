//! Detecting a batch whose access times were refreshed by the scan itself, and falling
//! back to modification times for the whole batch when that happened.

use vstd::prelude::*;
use crate::analyzer::{chosen_time, select_last_used_time_at, FileTimes, LastUsedSource};
use crate::models::{with_last_used, BinaryInfo};
use crate::time::{now, Timestamp};

verus! {

/// Fewest files with an access time for the check to be trusted (a tunable policy value).
pub const MIN_CONTAMINATION_SAMPLES: usize = 10;

/// Share of those files, in percent, whose access time must fall inside the scan window
/// (a tunable policy value).
pub const CONTAMINATION_PERCENT: u128 = 80;

/// Whether `t` lies within `[start, end]`.
pub open spec fn in_scan_window(t: Timestamp, start: Timestamp, end: Timestamp) -> bool {
    start@ <= t@ && t@ <= end@
}

/// How many records have an access time.
pub open spec fn accessed_count(bins: Seq<BinaryInfo>) -> nat
    decreases bins.len(),
{
    if bins.len() == 0 {
        0
    } else {
        accessed_count(bins.drop_last()) + if bins.last().accessed is Some {
            1nat
        } else {
            0nat
        }
    }
}

/// How many records have an access time inside `[start, end]`.
pub open spec fn in_window_count(bins: Seq<BinaryInfo>, start: Timestamp, end: Timestamp) -> nat
    decreases bins.len(),
{
    if bins.len() == 0 {
        0
    } else {
        in_window_count(bins.drop_last(), start, end) + if bins.last().accessed matches Some(t)
            && in_scan_window(t, start, end) {
            1nat
        } else {
            0nat
        }
    }
}

/// The batch rule: enough samples, and at least the set share of them inside the window.
pub open spec fn contamination_suspected(eligible: int, in_window: int) -> bool {
    eligible >= MIN_CONTAMINATION_SAMPLES as int && in_window * 100 >= eligible
        * CONTAMINATION_PERCENT as int
}

/// The record's raw timestamps.
pub open spec fn times_of(b: BinaryInfo) -> FileTimes {
    FileTimes { accessed: b.accessed, modified: b.modified }
}

/// Counts the records with an access time, and those of them inside `[scan_start, scan_end]`.
pub fn count_accessed_in_window(
    binaries: &Vec<BinaryInfo>,
    scan_start: Timestamp,
    scan_end: Timestamp,
) -> (r: (usize, usize))
    ensures
        r.0 as nat == accessed_count(binaries@),
        r.1 as nat == in_window_count(binaries@, scan_start, scan_end),
{
    let mut eligible: usize = 0;
    let mut inside: usize = 0;
    let mut i: usize = 0;
    while i < binaries.len()
        invariant
            i <= binaries@.len(),
            eligible as nat == accessed_count(binaries@.subrange(0, i as int)),
            inside as nat == in_window_count(binaries@.subrange(0, i as int), scan_start, scan_end),
            inside <= eligible <= i,
        decreases binaries@.len() - i,
    {
        let ghost before = binaries@.subrange(0, i as int);
        assert(binaries@.subrange(0, i + 1).drop_last() =~= before);
        if let Some(t) = binaries[i].accessed {
            eligible = eligible + 1;
            if scan_start.is_at_or_before(&t) && t.is_at_or_before(&scan_end) {
                inside = inside + 1;
            }
        }
        i = i + 1;
    }
    assert(binaries@.subrange(0, i as int) =~= binaries@);
    (eligible, inside)
}

/// Applies the batch rule to the two counts.
pub fn atime_contamination_suspected(eligible: usize, in_window: usize) -> (r: bool)
    ensures
        r == contamination_suspected(eligible as int, in_window as int),
{
    eligible >= MIN_CONTAMINATION_SAMPLES && (in_window as u128) * 100 >= (eligible as u128)
        * CONTAMINATION_PERCENT
}

/// After a scan bracketed by `scan_start` and `scan_end`: when access times were in use
/// and the batch rule says the scan refreshed them, recomputes every record's "last
/// used" instant from its modification time (falling back as the selection does) and
/// returns `(in_window, eligible)` for the caller's warning. Otherwise nothing changes.
pub fn maybe_fallback_from_atime_contamination(
    binaries: &mut Vec<BinaryInfo>,
    windows_use_access_time: bool,
    scan_start: Timestamp,
    scan_end: Timestamp,
) -> (r: Option<(usize, usize)>)
    ensures
        ({
            let eligible = accessed_count(old(binaries)@);
            let inside = in_window_count(old(binaries)@, scan_start, scan_end);
            let triggered = windows_use_access_time && contamination_suspected(
                eligible as int,
                inside as int,
            );
            &&& triggered ==> r == Some((inside as usize, eligible as usize))
            &&& !triggered ==> r is None && final(binaries)@ == old(binaries)@
        }),
        final(binaries)@.len() == old(binaries)@.len(),
        r is Some ==> forall|i: int|
            0 <= i < old(binaries)@.len() ==> {
                let b = #[trigger] old(binaries)@[i];
                let n = final(binaries)@[i];
                &&& n == with_last_used(b, n.last_used, n.last_used_source)
                &&& chosen_time(times_of(b), false) matches Some(p) ==> (n.last_used, n.last_used_source) == p
                &&& chosen_time(times_of(b), false) is None ==> n.last_used_source == LastUsedSource::Unknown
            },
{
    if !windows_use_access_time {
        return None;
    }
    let (eligible, inside) = count_accessed_in_window(binaries, scan_start, scan_end);
    if !atime_contamination_suspected(eligible, inside) {
        return None;
    }
    let at = now();
    let ghost original = binaries@;
    let mut i: usize = 0;
    while i < binaries.len()
        invariant
            i <= binaries@.len(),
            binaries@.len() == original.len(),
            forall|j: int| i <= j < original.len() ==> #[trigger] binaries@[j] == original[j],
            forall|j: int|
                0 <= j < i ==> {
                    let b = #[trigger] original[j];
                    let n = binaries@[j];
                    &&& n == with_last_used(b, n.last_used, n.last_used_source)
                    &&& (n.last_used, n.last_used_source) == crate::analyzer::last_used_at(times_of(b), false, at)
                },
        decreases original.len() - i,
    {
        let times = FileTimes { accessed: binaries[i].accessed, modified: binaries[i].modified };
        let (last_used, source) = select_last_used_time_at(times, false, at);
        binaries[i].last_used = last_used;
        binaries[i].last_used_source = source;
        i = i + 1;
    }
    Some((inside, eligible))
}

} // verus!
