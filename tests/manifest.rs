use bin_expire::archive_manifest::{
    append_entry, latest_entry_by_name, latest_index_by_name, record_archive, record_archive_at,
    take_latest_entry_by_name, ArchiveManifest, ManifestError,
};
use bin_expire::time::Timestamp;

fn manifest_with(names: &[(&str, &str)]) -> ArchiveManifest {
    let mut m = ArchiveManifest::new();
    for (name, archived) in names {
        append_entry(&mut m, name, &format!("/orig/{}", name), archived, "2024-01-01T00:00:00Z".to_string());
    }
    m
}

#[test]
fn record_then_lookup_round_trip() {
    let mut m = ArchiveManifest::new();
    record_archive(&mut m, "old_tool.exe", "/bin/old_tool.exe", "/archive/old_tool.exe").unwrap();
    let e = latest_entry_by_name(&m, "old_tool.exe").unwrap();
    assert_eq!(e.name, "old_tool.exe");
    assert_eq!(e.original_path, "/bin/old_tool.exe");
    assert_eq!(e.archived_path, "/archive/old_tool.exe");
    assert_eq!(e.moved_at.len(), 20);
    assert!(e.moved_at.ends_with('Z'));
}

#[test]
fn record_stamps_rfc3339_seconds() {
    let mut m = ArchiveManifest::new();
    record_archive_at(&mut m, "a", "/o/a", "/x/a", Timestamp::from_unix_secs(0)).unwrap();
    assert_eq!(m.entries[0].moved_at, "1970-01-01T00:00:00Z");
    record_archive_at(&mut m, "b", "/o/b", "/x/b", Timestamp { nanos: 1_518_568_087_900_000_000 }).unwrap();
    assert_eq!(m.entries[1].moved_at, "2018-02-14T00:28:07Z");
}

#[test]
fn record_refuses_unwritable_instants() {
    let mut m = manifest_with(&[("a", "/x/a")]);
    let before = Timestamp { nanos: -1 };
    assert_eq!(record_archive_at(&mut m, "b", "/o/b", "/x/b", before), Err(ManifestError::ClockOutOfRange));
    let far = Timestamp::from_unix_secs(253_402_300_800);
    assert_eq!(record_archive_at(&mut m, "b", "/o/b", "/x/b", far), Err(ManifestError::ClockOutOfRange));
    assert_eq!(m.entries.len(), 1);
    let last_second = Timestamp::from_unix_secs(253_402_300_799);
    record_archive_at(&mut m, "b", "/o/b", "/x/b", last_second).unwrap();
    assert_eq!(m.entries[1].moved_at, "9999-12-31T23:59:59Z");
}

#[test]
fn lookup_twice_gives_same_entry_and_keeps_manifest() {
    let m = manifest_with(&[("a", "/x/a1"), ("b", "/x/b"), ("a", "/x/a2")]);
    let first = latest_entry_by_name(&m, "a").unwrap();
    let second = latest_entry_by_name(&m, "a").unwrap();
    assert_eq!(first.archived_path, "/x/a2");
    assert_eq!(second.archived_path, "/x/a2");
    assert_eq!(m.entries.len(), 3);
}

#[test]
fn lookup_of_missing_name_is_not_found() {
    let m = manifest_with(&[("a", "/x/a")]);
    assert_eq!(latest_entry_by_name(&m, "zzz").unwrap_err(), ManifestError::NotFound);
    assert_eq!(latest_index_by_name(&m, "zzz"), None);
    assert_eq!(latest_entry_by_name(&ArchiveManifest::new(), "a").unwrap_err(), ManifestError::NotFound);
}

#[test]
fn take_removes_only_the_most_recent() {
    let mut m = manifest_with(&[("a", "/x/a1"), ("b", "/x/b"), ("a", "/x/a2"), ("c", "/x/c")]);
    let taken = take_latest_entry_by_name(&mut m, "a").unwrap();
    assert_eq!(taken.archived_path, "/x/a2");
    let names: Vec<&str> = m.entries.iter().map(|e| e.name.as_str()).collect();
    assert_eq!(names, vec!["a", "b", "c"]);
    let again = take_latest_entry_by_name(&mut m, "a").unwrap();
    assert_eq!(again.archived_path, "/x/a1");
    assert_eq!(take_latest_entry_by_name(&mut m, "a").unwrap_err(), ManifestError::NotFound);
    assert_eq!(m.entries.len(), 2);
}

#[test]
fn take_of_missing_name_leaves_manifest() {
    let mut m = manifest_with(&[("a", "/x/a")]);
    assert_eq!(take_latest_entry_by_name(&mut m, "b").unwrap_err(), ManifestError::NotFound);
    assert_eq!(m.entries.len(), 1);
}
