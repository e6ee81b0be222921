//! Tests for the week-statistics engine: eviction, bucketed aggregation,
//! and the durable history record's handling of absent and corrupt files.

use minecraft_status::week_stats::{
    determine_week_stats, HistoryEntry, PingStatsOnDisk, RangeStats,
};

/// 2021-02-14 08:12:43 UTC, the fixed moment the sample data hangs on.
const MOMENT: i64 = 1_613_290_363;

/// Seconds elapsed since midnight at `MOMENT` (08:12:43).
const SECONDS_FROM_MIDNIGHT: i64 = 8 * 3600 + 12 * 60 + 43;

fn days(n: i64) -> i64 {
    n * 86400
}

fn hours(n: i64) -> i64 {
    n * 3600
}

fn minutes(n: i64) -> i64 {
    n * 60
}

fn test_data() -> PingStatsOnDisk {
    let mut data = PingStatsOnDisk::default();
    let moment = MOMENT;

    data.add_data(moment - days(12) - hours(3), 20, 70);
    data.add_data(moment - days(10) - hours(3), 20, 70);
    data.add_data(moment - days(10) + hours(4), 20, 40);
    data.add_data(moment - days(9), 20, 40);

    data.add_data(moment - days(6) - minutes(12), 13, 40);
    data.add_data(moment - days(6) + hours(5), 40, 40);

    data.add_data(moment - days(1) - hours(1), 4, 30);
    data.add_data(moment - days(1) - minutes(30), 3, 50);
    data.add_data(moment - days(1), 20, 30);

    data.add_data(moment - hours(2), 15, 30);
    data.add_data(moment - minutes(15), 5, 30);
    data.add_data(moment, 10, 30);

    data
}

#[test]
fn trim_outdated() {
    let mut data = test_data();
    let original_length = data.len();
    let moment = MOMENT;

    data.trim_outdated(moment);

    assert!(data.len() < original_length);

    // These entries were outdated and should have been trimmed
    assert_eq!(data.contains_key(moment - days(12) - hours(3)), false);
    assert_eq!(data.contains_key(moment - days(10) - hours(3)), false);

    // These entries should have been kept
    assert_eq!(data.contains_key(moment - days(10) + hours(4)), true);
    assert_eq!(data.contains_key(moment - days(1)), true);
    assert_eq!(data.contains_key(moment), true);
}

#[test]
fn week_stats() {
    let data = test_data();
    let moment = MOMENT;

    let week_stats = data.week_stats(moment, SECONDS_FROM_MIDNIGHT);

    assert_eq!(week_stats.peak_online, 40);
    assert_eq!(week_stats.peak_max, 50);

    assert_eq!(
        week_stats.daily_stats,
        [
            RangeStats::default(),
            RangeStats {
                average_online: 26,
                peak_online: 40,
                peak_max: 40,
            },
            RangeStats::default(),
            RangeStats::default(),
            RangeStats::default(),
            RangeStats::default(),
            RangeStats {
                average_online: 9,
                peak_online: 20,
                peak_max: 50,
            },
            RangeStats {
                average_online: 10,
                peak_online: 15,
                peak_max: 30,
            },
        ]
    );

    let week_stats = data.week_stats(moment, 300);

    assert_eq!(week_stats.peak_online, 40);
    assert_eq!(week_stats.peak_max, 50);

    assert_eq!(
        week_stats.daily_stats,
        [
            RangeStats {
                average_online: 13,
                peak_online: 13,
                peak_max: 40
            },
            RangeStats {
                average_online: 40,
                peak_online: 40,
                peak_max: 40
            },
            RangeStats::default(),
            RangeStats::default(),
            RangeStats::default(),
            RangeStats {
                average_online: 3,
                peak_online: 4,
                peak_max: 50
            },
            RangeStats {
                average_online: 13,
                peak_online: 20,
                peak_max: 30
            },
            RangeStats {
                average_online: 10,
                peak_online: 10,
                peak_max: 30
            }
        ]
    );
}

// Test some aspects of interaction with the stored record
#[test]
fn file_handling() {
    // No record exists yet
    let (_, bytes) = determine_week_stats(None, 10, 40, MOMENT, SECONDS_FROM_MIDNIGHT);

    // A record exists now; a later observation joins the earlier one
    let (stats, bytes) = determine_week_stats(
        Some(bytes),
        20,
        50,
        MOMENT + 60,
        SECONDS_FROM_MIDNIGHT + 60,
    );
    assert_eq!(stats.peak_online, 20);
    assert!(!bytes.is_empty());

    // Corrupt the record
    let corrupt = b"getrekt".to_vec();

    // Make sure we recover and start the record over
    let (stats, _) = determine_week_stats(Some(corrupt), 10, 40, MOMENT, SECONDS_FROM_MIDNIGHT);
    assert_eq!(stats.peak_online, 10);
}

#[test]
fn eviction_keeps_recent_entry_only() {
    let mut data = PingStatsOnDisk::default();
    data.add_data(MOMENT - days(12), 1, 1);
    data.add_data(MOMENT - days(2), 2, 2);
    let bytes = data.to_bytes();

    let (_, updated) = determine_week_stats(Some(bytes), 5, 5, MOMENT, SECONDS_FROM_MIDNIGHT);

    let stored = PingStatsOnDisk::from_bytes(&updated).unwrap();
    assert_eq!(stored.contains_key(MOMENT - days(12)), false);
    assert_eq!(stored.contains_key(MOMENT - days(2)), true);
    assert_eq!(
        stored.get(MOMENT),
        Some(HistoryEntry { online: 5, max: 5 })
    );
}

#[test]
fn bucket_combines_same_day_samples() {
    let mut data = PingStatsOnDisk::default();
    data.add_data(MOMENT - days(6) - minutes(12), 13, 40);
    data.add_data(MOMENT - days(6) + hours(5), 40, 40);
    data.add_data(MOMENT - days(1), 20, 30);
    data.add_data(MOMENT, 10, 30);

    let week = data.week_stats(MOMENT, SECONDS_FROM_MIDNIGHT);

    // Yesterday's bucket sees only the one-day-old sample.
    assert_eq!(week.daily_stats[6].peak_online, 20);
    // Both six-day-old samples fall in one local day and are combined.
    assert_eq!(week.daily_stats[1].average_online, (13 + 40) / 2);
    assert_eq!(week.daily_stats[1].average_online, 26);
    assert_eq!(week.daily_stats[1].peak_online, 40);
    assert_eq!(week.daily_stats[1].peak_max, 40);
}

#[test]
fn corrupt_history_is_treated_as_empty() {
    assert!(PingStatsOnDisk::from_bytes(&b"getrekt".to_vec()).is_none());
    assert!(PingStatsOnDisk::from_bytes(&Vec::new()).is_none());

    // A truncated record: valid magic, half an entry.
    let mut truncated = PingStatsOnDisk::default().to_bytes();
    truncated.extend_from_slice(&[1, 2, 3]);
    assert!(PingStatsOnDisk::from_bytes(&truncated).is_none());
}

#[test]
fn history_codec_round_trips() {
    let data = test_data();
    let bytes = data.to_bytes();
    let back = PingStatsOnDisk::from_bytes(&bytes).unwrap();

    assert_eq!(back.len(), data.len());
    assert_eq!(
        back.get(MOMENT - days(6) - minutes(12)),
        Some(HistoryEntry { online: 13, max: 40 })
    );
    assert_eq!(back.get(MOMENT), Some(HistoryEntry { online: 10, max: 30 }));
    assert_eq!(back.get(MOMENT + 1), None);
    assert_eq!(back.to_bytes(), bytes);
}

#[test]
fn same_second_writes_overwrite() {
    let mut data = PingStatsOnDisk::default();
    data.add_data(MOMENT, 5, 10);
    data.add_data(MOMENT, 7, 12);

    assert_eq!(data.len(), 1);
    assert_eq!(data.get(MOMENT), Some(HistoryEntry { online: 7, max: 12 }));
}

#[test]
fn empty_range_reports_zeros() {
    let data = PingStatsOnDisk::default();
    let stats = data.range_stats(0, 1000, false);
    assert_eq!(stats, RangeStats::default());
}

#[test]
fn average_uses_floor_division() {
    let mut data = PingStatsOnDisk::default();
    data.add_data(100, 1, 10);
    data.add_data(200, 2, 10);
    let stats = data.range_stats(0, 1000, false);
    // floor(3 / 2) = 1
    assert_eq!(stats.average_online, 1);
    assert_eq!(stats.peak_online, 2);
    assert_eq!(stats.peak_max, 10);

    // The end of a half-open range is excluded, but included when asked.
    assert_eq!(data.range_stats(0, 200, false).average_online, 1);
    assert_eq!(data.range_stats(0, 200, true).average_online, 1);
    assert_eq!(data.range_stats(0, 200, false).peak_online, 1);
    assert_eq!(data.range_stats(0, 200, true).peak_online, 2);
}
