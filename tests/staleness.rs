use bin_expire::analyzer::{
    get_last_used_time, is_dormant, is_dormant_at, select_last_used_time, select_last_used_time_at,
    FileTimes, LastUsedSource,
};
use bin_expire::time::{filetime_to_timestamp, join_halves, now, Timestamp, NANOS_PER_DAY};

fn at_secs(secs: i64) -> Timestamp {
    Timestamp::from_unix_secs(secs)
}

fn days_before(now: Timestamp, days: i128) -> Timestamp {
    Timestamp { nanos: now.nanos - days * NANOS_PER_DAY }
}

#[test]
fn prefers_access_time_when_asked() {
    let times = FileTimes { accessed: Some(at_secs(200)), modified: Some(at_secs(100)) };
    assert_eq!(select_last_used_time(times, true), (at_secs(200), LastUsedSource::Accessed));
}

#[test]
fn falls_back_to_modified_time() {
    let times = FileTimes { accessed: Some(at_secs(200)), modified: Some(at_secs(100)) };
    assert_eq!(select_last_used_time(times, false), (at_secs(100), LastUsedSource::Modified));
    let only_modified = FileTimes { accessed: None, modified: Some(at_secs(100)) };
    assert_eq!(select_last_used_time(only_modified, true), (at_secs(100), LastUsedSource::Modified));
}

#[test]
fn uses_access_time_when_modified_missing() {
    let times = FileTimes { accessed: Some(at_secs(300)), modified: None };
    assert_eq!(select_last_used_time(times, false), (at_secs(300), LastUsedSource::Accessed));
}

#[test]
fn no_timestamps_gives_unknown_now() {
    let times = FileTimes { accessed: None, modified: None };
    let at = at_secs(12345);
    assert_eq!(select_last_used_time_at(times, true, at), (at, LastUsedSource::Unknown));
    let (_, source) = select_last_used_time(times, false);
    assert_eq!(source, LastUsedSource::Unknown);
}

#[test]
fn any_present_timestamp_is_never_unknown() {
    let t = at_secs(5);
    for times in [
        FileTimes { accessed: Some(t), modified: None },
        FileTimes { accessed: None, modified: Some(t) },
        FileTimes { accessed: Some(t), modified: Some(t) },
    ] {
        for prefer in [true, false] {
            assert_ne!(select_last_used_time(times, prefer).1, LastUsedSource::Unknown);
        }
    }
}

#[test]
fn backdated_hundred_days_is_dormant_at_thirty_not_at_one_twenty() {
    let current = at_secs(1_700_000_000);
    let file_time = days_before(current, 100);
    assert!(is_dormant_at(file_time, 30, current));
    assert!(!is_dormant_at(file_time, 120, current));
}

#[test]
fn dormancy_boundary_is_whole_days() {
    let current = at_secs(1_700_000_000);
    assert!(!is_dormant_at(days_before(current, 30), 30, current));
    // 30 days and one second truncates to 30 whole days.
    let just_over = Timestamp { nanos: days_before(current, 30).nanos - 1_000_000_000 };
    assert!(!is_dormant_at(just_over, 30, current));
    assert!(is_dormant_at(days_before(current, 31), 30, current));
    // 29.9 days is not stale at 30.
    let almost = Timestamp { nanos: current.nanos - NANOS_PER_DAY * 299 / 10 };
    assert!(!is_dormant_at(almost, 30, current));
}

#[test]
fn future_or_equal_timestamps_are_never_dormant() {
    let current = at_secs(1_000);
    assert!(!is_dormant_at(at_secs(2_000), -5, current));
    assert!(!is_dormant_at(current, -1, current));
    assert!(is_dormant_at(at_secs(999), -1, current));
}

#[test]
fn dormancy_with_extreme_ages() {
    let oldest = Timestamp { nanos: i128::MIN };
    let latest = Timestamp { nanos: i128::MAX };
    assert!(is_dormant_at(oldest, i64::MAX, latest));
    assert!(!is_dormant_at(latest, 0, oldest));
}

#[test]
fn dormancy_against_the_clock() {
    let current = now();
    assert!(is_dormant(days_before(current, 100), 30));
    assert!(!is_dormant(days_before(current, 100), 120));
}

#[test]
fn last_used_is_the_later_timestamp() {
    let times = FileTimes { accessed: Some(at_secs(10)), modified: Some(at_secs(20)) };
    assert_eq!(get_last_used_time(times), at_secs(20));
    let times = FileTimes { accessed: Some(at_secs(30)), modified: Some(at_secs(20)) };
    assert_eq!(get_last_used_time(times), at_secs(30));
    let times = FileTimes { accessed: None, modified: Some(at_secs(7)) };
    assert_eq!(get_last_used_time(times), at_secs(7));
}

#[test]
fn tick_counts_before_the_epoch_are_absent() {
    assert_eq!(filetime_to_timestamp(0, 0), None);
    // 1601-01-01 plus one tick: still before 1970.
    assert_eq!(filetime_to_timestamp(0, 1), None);
    let epoch: u64 = 116_444_736_000_000_000;
    let high = (epoch >> 32) as u32;
    let low = (epoch & 0xffff_ffff) as u32;
    assert_eq!(filetime_to_timestamp(high, low), Some(Timestamp { nanos: 0 }));
    let one_sec_later = epoch + 10_000_000;
    let t = filetime_to_timestamp((one_sec_later >> 32) as u32, (one_sec_later & 0xffff_ffff) as u32);
    assert_eq!(t, Some(Timestamp { nanos: 1_000_000_000 }));
    let before = epoch - 1;
    assert_eq!(filetime_to_timestamp((before >> 32) as u32, (before & 0xffff_ffff) as u32), None);
}

#[test]
fn halves_join_into_one_value() {
    assert_eq!(join_halves(1, 2), 0x1_0000_0002);
    assert_eq!(join_halves(u32::MAX, u32::MAX), u64::MAX);
    assert_eq!(join_halves(0, 0), 0);
}

#[test]
fn timestamp_conversions() {
    assert_eq!(Timestamp::from_epoch_offset(false, 2, 5).nanos, 2_000_000_005);
    assert_eq!(Timestamp::from_epoch_offset(true, 2, 5).nanos, -2_000_000_005);
    assert_eq!(Timestamp { nanos: -1 }.unix_secs_floor(), -1);
    assert_eq!(Timestamp { nanos: -1_000_000_000 }.unix_secs_floor(), -1);
    assert_eq!(Timestamp { nanos: -1_000_000_001 }.unix_secs_floor(), -2);
    assert_eq!(Timestamp { nanos: 1_999_999_999 }.unix_secs_floor(), 1);
    assert!(at_secs(1).is_at_or_before(&at_secs(1)));
    assert!(!at_secs(2).is_at_or_before(&at_secs(1)));
}
