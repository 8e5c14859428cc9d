//! Choosing one "last used" instant per file and deciding whether it is dormant.

use vstd::prelude::*;
use crate::time::{now, Timestamp, NANOS_PER_DAY};

verus! {

/// Which raw timestamp a "last used" instant was taken from.
#[derive(Clone, Copy, Debug, PartialEq, Eq, Structural)]
pub enum LastUsedSource {
    Accessed,
    Modified,
    Unknown,
}

/// The raw timestamps of one file; either may be missing.
#[derive(Clone, Copy, Debug, PartialEq, Eq, Structural)]
pub struct FileTimes {
    pub accessed: Option<Timestamp>,
    pub modified: Option<Timestamp>,
}

/// What one look at a file yields: its size and its raw timestamps.
#[derive(Clone, Copy, Debug, PartialEq, Eq, Structural)]
pub struct FileInfo {
    pub size: u64,
    pub times: FileTimes,
}

/// The timestamp that counts as "last used" and where it came from, when the file has
/// one: the access time first if preferred, then the modification time, then the
/// access time.
pub open spec fn chosen_time(times: FileTimes, prefer_accessed: bool) -> Option<
    (Timestamp, LastUsedSource),
> {
    if prefer_accessed && times.accessed is Some {
        Some((times.accessed->0, LastUsedSource::Accessed))
    } else if times.modified is Some {
        Some((times.modified->0, LastUsedSource::Modified))
    } else if times.accessed is Some {
        Some((times.accessed->0, LastUsedSource::Accessed))
    } else {
        None
    }
}

/// The full choice, with `now` standing in when the file has no timestamp at all.
pub open spec fn last_used_at(times: FileTimes, prefer_accessed: bool, now: Timestamp) -> (
    Timestamp,
    LastUsedSource,
) {
    match chosen_time(times, prefer_accessed) {
        Some(p) => p,
        None => (now, LastUsedSource::Unknown),
    }
}

/// Dormancy: the age `now - timestamp` is positive and, in whole days (truncated),
/// exceeds the threshold.
pub open spec fn dormant_at(timestamp: Timestamp, days_threshold: i64, now: Timestamp) -> bool {
    let age = now@ - timestamp@;
    age > 0 && age / (NANOS_PER_DAY as int) > days_threshold as int
}

/// Picks the "last used" instant of a file, using `now` when it has no timestamp.
pub fn select_last_used_time_at(times: FileTimes, prefer_accessed: bool, now: Timestamp) -> (r: (
    Timestamp,
    LastUsedSource,
))
    ensures
        r == last_used_at(times, prefer_accessed, now),
{
    if prefer_accessed {
        if let Some(accessed) = times.accessed {
            return (accessed, LastUsedSource::Accessed);
        }
    }
    if let Some(modified) = times.modified {
        return (modified, LastUsedSource::Modified);
    }
    if let Some(accessed) = times.accessed {
        return (accessed, LastUsedSource::Accessed);
    }
    (now, LastUsedSource::Unknown)
}

/// Picks the "last used" instant of a file; a file with no timestamp at all gets the
/// current instant, tagged `Unknown`. It never fails.
pub fn select_last_used_time(times: FileTimes, prefer_accessed: bool) -> (r: (
    Timestamp,
    LastUsedSource,
))
    ensures
        chosen_time(times, prefer_accessed) matches Some(p) ==> r == p,
        (r.1 == LastUsedSource::Unknown) <==> (times.accessed is None && times.modified is None),
{
    select_last_used_time_at(times, prefer_accessed, now())
}

/// The later of the two raw timestamps, or whichever one exists; `None` without either.
pub open spec fn later_time(times: FileTimes) -> Option<Timestamp> {
    match (times.accessed, times.modified) {
        (Some(a), Some(m)) => if a@ < m@ {
            Some(m)
        } else {
            Some(a)
        },
        (Some(a), None) => Some(a),
        (None, Some(m)) => Some(m),
        (None, None) => None,
    }
}

/// The later of the access and modification times; the current instant when the file
/// has neither.
pub fn get_last_used_time(times: FileTimes) -> (r: Timestamp)
    ensures
        later_time(times) matches Some(t) ==> r == t,
{
    match (times.accessed, times.modified) {
        (Some(a), Some(m)) => if a.nanos < m.nanos {
            m
        } else {
            a
        },
        (Some(a), None) => a,
        (None, Some(m)) => m,
        (None, None) => now(),
    }
}

/// Whether `timestamp` is dormant at instant `now` for a threshold in days.
pub fn is_dormant_at(timestamp: Timestamp, days_threshold: i64, now: Timestamp) -> (r: bool)
    ensures
        r == dormant_at(timestamp, days_threshold, now),
{
    if now.nanos <= timestamp.nanos {
        return false;
    }
    let days: i128 = match now.nanos.checked_sub(timestamp.nanos) {
        Some(age) => age / NANOS_PER_DAY,
        None => {
            // The age is at least 2^127 ns, far beyond any i64 count of days.
            assert((now@ - timestamp@) / (NANOS_PER_DAY as int) > 0x7fff_ffff_ffff_ffff)
                by (nonlinear_arith)
                requires
                    now@ - timestamp@ > 0x7fff_ffff_ffff_ffff_ffff_ffff_ffff_ffff,
            ;
            return true;
        },
    };
    days > days_threshold as i128
}

/// Whether `timestamp` is dormant now, by the system clock.
pub fn is_dormant(timestamp: Timestamp, days_threshold: i64) -> (r: bool)
    ensures
        exists|at: Timestamp| r == dormant_at(timestamp, days_threshold, at),
{
    let at = now();
    is_dormant_at(timestamp, days_threshold, at)
}

/// A file with at least one raw timestamp never gets the `Unknown` fallback, whatever
/// the preference and whatever the current instant.
pub proof fn lemma_present_time_is_never_unknown(
    times: FileTimes,
    prefer_accessed: bool,
    now: Timestamp,
)
    requires
        times.accessed is Some || times.modified is Some,
    ensures
        last_used_at(times, prefer_accessed, now).1 != LastUsedSource::Unknown,
        chosen_time(times, prefer_accessed) is Some,
{
}

/// The dormancy boundary sits at whole days: an age of at most `d` days is never
/// dormant, and an age of at least `d + 1` days always is.
pub proof fn lemma_dormancy_boundary(timestamp: Timestamp, days_threshold: i64, now: Timestamp)
    requires
        days_threshold >= 0,
    ensures
        now@ - timestamp@ <= days_threshold as int * NANOS_PER_DAY as int ==> !dormant_at(
            timestamp,
            days_threshold,
            now,
        ),
        now@ - timestamp@ >= (days_threshold as int + 1) * NANOS_PER_DAY as int ==> dormant_at(
            timestamp,
            days_threshold,
            now,
        ),
{
    let age = now@ - timestamp@;
    let d = days_threshold as int;
    let day = NANOS_PER_DAY as int;
    if age > 0 && age <= d * day {
        assert(age / day <= d) by (nonlinear_arith)
            requires
                age <= d * day,
                day > 0,
                age > 0,
        ;
    }
    if age >= (d + 1) * day {
        assert(age / day >= d + 1) by (nonlinear_arith)
            requires
                age >= (d + 1) * day,
                day > 0,
                d >= 0,
        ;
    }
}

} // verus!
