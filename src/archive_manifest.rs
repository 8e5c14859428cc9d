//! The archive manifest: an ordered record of archived files, newest last.
//!
//! Several entries may share a name (a binary archived more than once); the one
//! recorded last is the one a restore uses. Loading and persisting the document is
//! the caller's part: these operations work on the manifest in memory.

use vstd::prelude::*;
use crate::time::{now, Timestamp, NANOS_PER_SEC};

verus! {

/// The first second that the manifest's timestamp text cannot express (year 10000).
pub const RFC3339_SECONDS_LIMIT: u64 = 253_402_300_800;

/// One archived file: its name, where it was and where it is now, and when it moved.
#[derive(Clone, Debug)]
pub struct ArchiveEntry {
    pub name: String,
    pub original_path: String,
    pub archived_path: String,
    pub moved_at: String,
}

/// All archive entries in the order they were recorded.
#[derive(Clone, Debug)]
pub struct ArchiveManifest {
    pub entries: Vec<ArchiveEntry>,
}

/// Why a manifest operation did not take place.
#[derive(Clone, Copy, Debug, PartialEq, Eq, Structural)]
pub enum ManifestError {
    /// No entry carries the requested name.
    NotFound,
    /// The clock reads before 1970 or after year 9999, which the timestamp text cannot hold.
    ClockOutOfRange,
}

/// RFC 3339 text, to the second and in UTC, of the instant `secs` seconds after the epoch.
pub uninterp spec fn rfc3339_seconds_text(secs: int) -> Seq<char>;

/// Relies on `humantime::format_rfc3339_seconds`, which writes `YYYY-MM-DDTHH:MM:SSZ` (twenty
/// characters) for any instant from the epoch to the end of year 9999; past that its
/// `Display` fails, so such instants are excluded.
#[verifier::external_body]
fn format_rfc3339_seconds(secs: u64) -> (r: String)
    requires
        secs < RFC3339_SECONDS_LIMIT,
    ensures
        r@ == rfc3339_seconds_text(secs as int),
        r@.len() == 20,
{
    let at = std::time::UNIX_EPOCH + std::time::Duration::from_secs(secs);
    humantime::format_rfc3339_seconds(at).to_string()
}

/// The position of the last entry named `name`, if any.
pub open spec fn last_index_of(entries: Seq<ArchiveEntry>, name: Seq<char>) -> Option<int>
    decreases entries.len(),
{
    if entries.len() == 0 {
        None
    } else if entries.last().name@ == name {
        Some(entries.len() - 1)
    } else {
        last_index_of(entries.drop_last(), name)
    }
}

/// What a lookup of `name` yields: a copy of its most recent entry, or `NotFound`.
pub open spec fn lookup_outcome(entries: Seq<ArchiveEntry>, name: Seq<char>) -> Result<
    ArchiveEntry,
    ManifestError,
> {
    match last_index_of(entries, name) {
        Some(i) => Ok(entries[i]),
        None => Err(ManifestError::NotFound),
    }
}

/// An entry holds exactly the given name, paths and timestamp text.
pub open spec fn entry_holds(
    e: ArchiveEntry,
    name: Seq<char>,
    original_path: Seq<char>,
    archived_path: Seq<char>,
    moved_at: Seq<char>,
) -> bool {
    &&& e.name@ == name
    &&& e.original_path@ == original_path
    &&& e.archived_path@ == archived_path
    &&& e.moved_at@ == moved_at
}

/// `after` is `before` with one entry appended that holds the given values.
pub open spec fn appended(
    before: Seq<ArchiveEntry>,
    after: Seq<ArchiveEntry>,
    name: Seq<char>,
    original_path: Seq<char>,
    archived_path: Seq<char>,
    moved_at: Seq<char>,
) -> bool {
    &&& after.len() == before.len() + 1
    &&& after.drop_last() == before
    &&& entry_holds(after.last(), name, original_path, archived_path, moved_at)
}

/// Whether an instant can be written as the manifest's timestamp text.
pub open spec fn recordable(at: Timestamp) -> bool {
    0 <= at@ && at@ / (NANOS_PER_SEC as int) < RFC3339_SECONDS_LIMIT as int
}

impl ArchiveEntry {
    /// A copy of this entry, field for field.
    pub fn duplicate(&self) -> (r: ArchiveEntry)
        ensures
            r == *self,
    {
        ArchiveEntry {
            name: self.name.clone(),
            original_path: self.original_path.clone(),
            archived_path: self.archived_path.clone(),
            moved_at: self.moved_at.clone(),
        }
    }
}

impl ArchiveManifest {
    /// A manifest without entries, as an absent document reads.
    pub fn new() -> (r: ArchiveManifest)
        ensures
            r.entries@.len() == 0,
    {
        ArchiveManifest { entries: Vec::new() }
    }
}

/// The position of the most recent entry named `name`, scanning from the end.
pub fn latest_index_by_name(manifest: &ArchiveManifest, name: &str) -> (r: Option<usize>)
    ensures
        r matches Some(i) ==> last_index_of(manifest.entries@, name@) == Some(i as int),
        r is None ==> last_index_of(manifest.entries@, name@) is None,
{
    let wanted = String::from_str(name);
    let mut i: usize = manifest.entries.len();
    assert(manifest.entries@.subrange(0, i as int) =~= manifest.entries@);
    while i > 0
        invariant
            i <= manifest.entries@.len(),
            wanted@ == name@,
            last_index_of(manifest.entries@, name@) == last_index_of(
                manifest.entries@.subrange(0, i as int),
                name@,
            ),
        decreases i,
    {
        let ghost prefix = manifest.entries@.subrange(0, i as int);
        assert(prefix.drop_last() =~= manifest.entries@.subrange(0, i - 1));
        if manifest.entries[i - 1].name == wanted {
            return Some(i - 1);
        }
        i = i - 1;
    }
    None
}

/// A copy of the most recent entry named `name`; the manifest is left as it is.
pub fn latest_entry_by_name(manifest: &ArchiveManifest, name: &str) -> (r: Result<
    ArchiveEntry,
    ManifestError,
>)
    ensures
        r == lookup_outcome(manifest.entries@, name@),
{
    proof {
        lemma_last_index_facts(manifest.entries@, name@);
    }
    match latest_index_by_name(manifest, name) {
        Some(i) => Ok(manifest.entries[i].duplicate()),
        None => Err(ManifestError::NotFound),
    }
}

/// Removes and returns the most recent entry named `name`; every other entry stays, in
/// its order. Without such an entry the manifest is left as it is.
pub fn take_latest_entry_by_name(manifest: &mut ArchiveManifest, name: &str) -> (r: Result<
    ArchiveEntry,
    ManifestError,
>)
    ensures
        r == lookup_outcome(old(manifest).entries@, name@),
        match last_index_of(old(manifest).entries@, name@) {
            Some(i) => final(manifest).entries@ == old(manifest).entries@.remove(i),
            None => final(manifest).entries@ == old(manifest).entries@,
        },
{
    match latest_index_by_name(manifest, name) {
        Some(i) => {
            proof {
                lemma_last_index_facts(manifest.entries@, name@);
            }
            let entry = manifest.entries.remove(i);
            Ok(entry)
        },
        None => Err(ManifestError::NotFound),
    }
}

/// Appends an entry with the given name, paths and timestamp text.
pub fn append_entry(
    manifest: &mut ArchiveManifest,
    name: &str,
    original_path: &str,
    archived_path: &str,
    moved_at: String,
)
    ensures
        appended(
            old(manifest).entries@,
            final(manifest).entries@,
            name@,
            original_path@,
            archived_path@,
            moved_at@,
        ),
{
    let entry = ArchiveEntry {
        name: String::from_str(name),
        original_path: String::from_str(original_path),
        archived_path: String::from_str(archived_path),
        moved_at,
    };
    manifest.entries.push(entry);
    assert(manifest.entries@.drop_last() =~= old(manifest).entries@);
}

/// Records that `name` moved from `original_path` to `archived_path` at instant `at`,
/// stamped with `at` as RFC 3339 text to the second. An instant that text cannot hold
/// leaves the manifest as it is.
pub fn record_archive_at(
    manifest: &mut ArchiveManifest,
    name: &str,
    original_path: &str,
    archived_path: &str,
    at: Timestamp,
) -> (r: Result<(), ManifestError>)
    ensures
        recordable(at) ==> r is Ok && appended(
            old(manifest).entries@,
            final(manifest).entries@,
            name@,
            original_path@,
            archived_path@,
            rfc3339_seconds_text(at@ / (NANOS_PER_SEC as int)),
        ),
        !recordable(at) ==> r == Err::<(), ManifestError>(ManifestError::ClockOutOfRange)
            && final(manifest).entries@ == old(manifest).entries@,
{
    if at.nanos < 0 {
        return Err(ManifestError::ClockOutOfRange);
    }
    let secs = at.unix_secs_floor();
    if secs >= RFC3339_SECONDS_LIMIT as i128 {
        return Err(ManifestError::ClockOutOfRange);
    }
    let moved_at = format_rfc3339_seconds(secs as u64);
    append_entry(manifest, name, original_path, archived_path, moved_at);
    Ok(())
}

/// Records that `name` moved from `original_path` to `archived_path`, stamped with the
/// current time. It fails, leaving the manifest as it is, only when the clock reads an
/// instant the timestamp text cannot hold.
pub fn record_archive(
    manifest: &mut ArchiveManifest,
    name: &str,
    original_path: &str,
    archived_path: &str,
) -> (r: Result<(), ManifestError>)
    ensures
        r is Ok ==> exists|secs: int|
            appended(
                old(manifest).entries@,
                final(manifest).entries@,
                name@,
                original_path@,
                archived_path@,
                #[trigger] rfc3339_seconds_text(secs),
            ),
        r is Err ==> r == Err::<(), ManifestError>(ManifestError::ClockOutOfRange)
            && final(manifest).entries@ == old(manifest).entries@,
{
    let at = now();
    record_archive_at(manifest, name, original_path, archived_path, at)
}

/// What `last_index_of` finds is an entry of that name with none of that name after it.
pub proof fn lemma_last_index_facts(entries: Seq<ArchiveEntry>, name: Seq<char>)
    ensures
        match last_index_of(entries, name) {
            Some(i) => 0 <= i < entries.len() && entries[i].name@ == name && forall|j: int|
                i < j < entries.len() ==> #[trigger] entries[j].name@ != name,
            None => forall|j: int| 0 <= j < entries.len() ==> #[trigger] entries[j].name@ != name,
        },
    decreases entries.len(),
{
    if entries.len() > 0 && entries.last().name@ != name {
        let shorter = entries.drop_last();
        lemma_last_index_facts(shorter, name);
        assert(last_index_of(entries, name) == last_index_of(shorter, name));
        assert forall|j: int| 0 <= j < entries.len() - 1 implies #[trigger] entries[j] == shorter[j] by {}
        match last_index_of(shorter, name) {
            Some(i) => {
                assert forall|j: int| i < j < entries.len() implies #[trigger] entries[j].name@ != name by {
                    if j < entries.len() - 1 {
                        assert(entries[j] == shorter[j]);
                    }
                }
            },
            None => {
                assert forall|j: int| 0 <= j < entries.len() implies #[trigger] entries[j].name@ != name by {
                    if j < entries.len() - 1 {
                        assert(entries[j] == shorter[j]);
                    }
                }
            },
        }
    }
}

/// Appending entries of other names does not change which entry a name finds.
pub proof fn lemma_last_index_ignores_other_names(
    head: Seq<ArchiveEntry>,
    tail: Seq<ArchiveEntry>,
    name: Seq<char>,
)
    requires
        forall|j: int| 0 <= j < tail.len() ==> #[trigger] tail[j].name@ != name,
    ensures
        last_index_of(head + tail, name) == last_index_of(head, name),
    decreases tail.len(),
{
    if tail.len() > 0 {
        let whole = head + tail;
        assert(whole.last() == tail.last());
        assert(whole.drop_last() =~= head + tail.drop_last());
        lemma_last_index_ignores_other_names(head, tail.drop_last(), name);
    } else {
        assert(head + tail =~= head);
    }
}

/// Round trip: right after an entry is recorded, looking its name up yields that entry,
/// with the paths it was recorded with.
pub proof fn lemma_record_then_lookup(
    before: Seq<ArchiveEntry>,
    after: Seq<ArchiveEntry>,
    name: Seq<char>,
    original_path: Seq<char>,
    archived_path: Seq<char>,
    moved_at: Seq<char>,
)
    requires
        appended(before, after, name, original_path, archived_path, moved_at),
    ensures
        lookup_outcome(after, name) == Ok::<ArchiveEntry, ManifestError>(after.last()),
        lookup_outcome(after, name) matches Ok(e) && e.original_path@ == original_path
            && e.archived_path@ == archived_path && e.name@ == name,
{
}

/// A lookup leaves the manifest as it is, so two lookups of one name in a row agree.
pub proof fn lemma_lookup_twice_agrees(
    entries: Seq<ArchiveEntry>,
    name: Seq<char>,
    first: Result<ArchiveEntry, ManifestError>,
    second: Result<ArchiveEntry, ManifestError>,
)
    requires
        first == lookup_outcome(entries, name),
        second == lookup_outcome(entries, name),
    ensures
        first == second,
{
}

/// Taking the latest entry of a name removes exactly that one entry; the entries before
/// it stay where they were, so the next take of the same name finds the one recorded
/// just before it.
pub proof fn lemma_take_keeps_earlier(entries: Seq<ArchiveEntry>, name: Seq<char>)
    requires
        last_index_of(entries, name) is Some,
    ensures
        ({
            let i = last_index_of(entries, name)->0;
            let rest = entries.remove(i);
            &&& rest.len() == entries.len() - 1
            &&& forall|j: int| 0 <= j < i ==> #[trigger] rest[j] == entries[j]
            &&& last_index_of(rest, name) == last_index_of(entries.subrange(0, i), name)
        }),
{
    lemma_last_index_facts(entries, name);
    let i = last_index_of(entries, name)->0;
    let head = entries.subrange(0, i);
    let tail = entries.subrange(i + 1, entries.len() as int);
    assert(entries.remove(i) =~= head + tail);
    assert forall|j: int| 0 <= j < tail.len() implies #[trigger] tail[j].name@ != name by {
        assert(tail[j] == entries[i + 1 + j]);
    }
    lemma_last_index_ignores_other_names(head, tail, name);
}

} // verus!
