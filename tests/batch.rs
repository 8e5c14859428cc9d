use bin_expire::analyzer::{FileInfo, FileTimes, LastUsedSource};
use bin_expire::contamination::{
    atime_contamination_suspected, count_accessed_in_window, maybe_fallback_from_atime_contamination,
};
use bin_expire::models::BinaryInfo;
use bin_expire::selection::{
    classify, is_probable_shim, is_row_visible, select_archive_candidates, summarize_scan, ScanFilter,
    ScanRow, ScanStatus,
};
use bin_expire::time::{Timestamp, NANOS_PER_DAY};
use bin_expire::ui::{format_bytes, format_date_short};

fn secs(s: i64) -> Timestamp {
    Timestamp::from_unix_secs(s)
}

fn record(name: &str, size: u64, accessed: Option<Timestamp>, modified: Option<Timestamp>) -> BinaryInfo {
    let info = FileInfo { size, times: FileTimes { accessed, modified } };
    BinaryInfo::from_file_info(name.to_string(), format!("/bin/{}", name), info, false, true)
}

#[test]
fn record_takes_the_chosen_time() {
    let b = record("x", 3, Some(secs(50)), Some(secs(10)));
    assert_eq!((b.last_used, b.last_used_source), (secs(50), LastUsedSource::Accessed));
    assert_eq!(b.path, "/bin/x");
    assert_eq!(b.size, 3);
}

#[test]
fn contaminated_batch_falls_back_to_modified() {
    let start = secs(1_000);
    let end = secs(1_010);
    let mut batch = Vec::new();
    for i in 0..11 {
        batch.push(record(&format!("f{}", i), 10, Some(secs(1_005)), Some(secs(100 + i))));
    }
    batch.push(record("outside", 10, Some(secs(500)), Some(secs(400))));
    assert_eq!(batch[0].last_used_source, LastUsedSource::Accessed);
    let r = maybe_fallback_from_atime_contamination(&mut batch, true, start, end);
    assert_eq!(r, Some((11, 12)));
    for (i, b) in batch.iter().enumerate().take(11) {
        assert_eq!(b.last_used_source, LastUsedSource::Modified);
        assert_eq!(b.last_used, secs(100 + i as i64));
    }
    assert_eq!(batch[11].last_used_source, LastUsedSource::Modified);
    assert_eq!(batch[11].last_used, secs(400));
}

#[test]
fn contaminated_record_without_modified_time_keeps_access_time() {
    let mut batch = Vec::new();
    for i in 0..11 {
        batch.push(record(&format!("k{}", i), 10, Some(secs(1_005)), Some(secs(1))));
    }
    batch.push(record("no_mtime", 10, Some(secs(500)), None));
    assert_eq!(maybe_fallback_from_atime_contamination(&mut batch, true, secs(1_000), secs(1_010)), Some((11, 12)));
    // Modified time first, then the access time: it is the only signal left.
    assert_eq!(batch[11].last_used_source, LastUsedSource::Accessed);
    assert_eq!(batch[11].last_used, secs(500));
}

#[test]
fn contaminated_batch_without_any_modified_time_is_unknown() {
    let mut batch = Vec::new();
    for i in 0..12 {
        batch.push(record(&format!("g{}", i), 1, Some(secs(1_001)), None));
    }
    let r = maybe_fallback_from_atime_contamination(&mut batch, true, secs(1_000), secs(1_002));
    assert_eq!(r, Some((12, 12)));
    // With only an access time, the modified-time fallback still lands on it.
    assert!(batch.iter().all(|b| b.last_used_source == LastUsedSource::Accessed));
    let mut none = vec![record("n", 1, None, None)];
    for i in 0..10 {
        none.push(record(&format!("h{}", i), 1, Some(secs(1_001)), None));
    }
    maybe_fallback_from_atime_contamination(&mut none, true, secs(1_000), secs(1_002));
    assert_eq!(none[0].last_used_source, LastUsedSource::Unknown);
}

#[test]
fn too_few_samples_or_too_few_inside_do_not_trigger() {
    let mut small = Vec::new();
    for i in 0..9 {
        small.push(record(&format!("s{}", i), 1, Some(secs(1_005)), Some(secs(1))));
    }
    assert_eq!(maybe_fallback_from_atime_contamination(&mut small, true, secs(1_000), secs(1_010)), None);
    assert_eq!(small[0].last_used_source, LastUsedSource::Accessed);

    let mut mixed = Vec::new();
    for i in 0..10 {
        let t = if i < 7 { secs(1_005) } else { secs(1) };
        mixed.push(record(&format!("m{}", i), 1, Some(t), Some(secs(1))));
    }
    assert_eq!(count_accessed_in_window(&mixed, secs(1_000), secs(1_010)), (10, 7));
    assert_eq!(maybe_fallback_from_atime_contamination(&mut mixed, true, secs(1_000), secs(1_010)), None);
    assert_eq!(maybe_fallback_from_atime_contamination(&mut small, false, secs(1_000), secs(1_010)), None);
}

#[test]
fn contamination_threshold_is_eighty_percent_of_ten() {
    assert!(atime_contamination_suspected(10, 8));
    assert!(!atime_contamination_suspected(10, 7));
    assert!(!atime_contamination_suspected(9, 9));
    assert!(atime_contamination_suspected(20, 16));
    assert!(!atime_contamination_suspected(20, 15));
}

#[test]
fn window_bounds_are_inclusive() {
    let batch = vec![
        record("a", 1, Some(secs(10)), None),
        record("b", 1, Some(secs(20)), None),
        record("c", 1, Some(secs(21)), None),
        record("d", 1, None, Some(secs(15))),
    ];
    assert_eq!(count_accessed_in_window(&batch, secs(10), secs(20)), (3, 2));
}

#[test]
fn shims_are_empty_exe_files() {
    assert!(is_probable_shim(0, "tool.exe"));
    assert!(is_probable_shim(0, "Tool.EXE"));
    assert!(!is_probable_shim(1, "tool.exe"));
    assert!(!is_probable_shim(0, ".exe"));
    assert!(!is_probable_shim(0, "tool.exe.bak"));
    assert!(!is_probable_shim(0, "toolexe"));
}

#[test]
fn archive_candidates_skip_ignored_shims_and_fresh() {
    let current = secs(100 * 86_400);
    let old = Timestamp { nanos: current.nanos - 50 * NANOS_PER_DAY };
    let bins = vec![
        record("old_tool.exe", 7, Some(old), Some(old)),
        record("fresh", 7, Some(current), Some(current)),
        record("shim.exe", 0, Some(old), Some(old)),
        record("ignored", 7, Some(old), Some(old)),
        record("also_old", 7, None, Some(old)),
    ];
    let ignored = vec!["ignored".to_string()];
    assert_eq!(select_archive_candidates(&bins, &ignored, 30, current), vec![0, 4]);
    assert_eq!(classify(&bins[1], 30, current), ScanStatus::Fresh);
    assert_eq!(classify(&bins[2], 30, current), ScanStatus::Shim);
}

#[test]
fn scan_summary_counts_and_rows() {
    let current = secs(100 * 86_400);
    let old = Timestamp { nanos: current.nanos - 50 * NANOS_PER_DAY };
    let bins = vec![
        record("a", 100, None, Some(old)),
        record("b", 5, None, Some(current)),
        record("c.exe", 0, None, Some(old)),
        record("d", u64::MAX, None, Some(old)),
        record("skip", 1, None, Some(old)),
    ];
    let ignored = vec!["skip".to_string()];
    let plain = ScanFilter { verbose: false, hide_ok: false, hide_shim: false };
    let s = summarize_scan(&bins, &ignored, 30, current, plain);
    assert_eq!((s.stale_count, s.ok_count, s.shim_count), (2, 1, 1));
    assert_eq!(s.stale_total_bytes, u64::MAX);
    assert_eq!(
        s.rows,
        vec![
            ScanRow { index: 0, status: ScanStatus::Stale },
            ScanRow { index: 2, status: ScanStatus::Shim },
            ScanRow { index: 3, status: ScanStatus::Stale },
        ]
    );
    let verbose = ScanFilter { verbose: true, hide_ok: false, hide_shim: true };
    let s = summarize_scan(&bins, &ignored, 30, current, verbose);
    assert_eq!(s.rows.iter().map(|r| r.index).collect::<Vec<_>>(), vec![0, 1, 3]);
    assert!(!is_row_visible(ScanStatus::Fresh, ScanFilter { verbose: true, hide_ok: true, hide_shim: false }));
}

#[test]
fn byte_sizes_as_text() {
    assert_eq!(format_bytes(0), "0 B");
    assert_eq!(format_bytes(1023), "1023 B");
    assert_eq!(format_bytes(1024), "1.0 KB");
    assert_eq!(format_bytes(1536), "1.5 KB");
    assert_eq!(format_bytes(1024 * 1024), "1.0 MB");
    assert_eq!(format_bytes(5 * 1024 * 1024 * 1024), "5.0 GB");
    assert_eq!(format_bytes(3 * 1024u64.pow(4)), "3.0 TB");
    assert_eq!(format_bytes(2048 * 1024u64.pow(4)), "2048.0 TB");
}

#[test]
fn byte_sizes_match_float_rounding() {
    let units = ["B", "KB", "MB", "GB", "TB"];
    for bytes in [1025u64, 1075, 1126, 1280, 1331, 1433, 2_500_000, 123_456_789, 1_048_575, 999_999_999_999] {
        let mut size = bytes as f64;
        let mut unit = 0usize;
        while size >= 1024.0 && unit < units.len() - 1 {
            size /= 1024.0;
            unit += 1;
        }
        assert_eq!(format_bytes(bytes), format!("{:.1} {}", size, units[unit]), "bytes = {}", bytes);
    }
}

#[test]
fn dates_as_short_text() {
    assert_eq!(format_date_short(None), "-");
    assert_eq!(format_date_short(Some(secs(0))), "1970-01-01");
    assert_eq!(format_date_short(Some(secs(1_431_648_000))), "2015-05-15");
    assert_eq!(format_date_short(Some(Timestamp { nanos: -1 })), "1969-12-31");
}
