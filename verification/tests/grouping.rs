use market_analysis::errors::{AggregationError, WidthMismatch};
use market_analysis::grouping::{
    group_by_period, groupby_weekly, period_width, Bucket, GroupedBy, MAX_TIMESTAMP,
    MIN_TIMESTAMP, WEEK_SECONDS,
};
use market_analysis::inputs::AggregationPeriod;

const DAY: i64 = 86_400;

fn at(year: i32, month: u32, day: u32, hour: u32, minute: u32) -> i64 {
    chrono::NaiveDate::from_ymd_opt(year, month, day)
        .unwrap()
        .and_hms_opt(hour, minute, 0)
        .unwrap()
        .and_utc()
        .timestamp()
}

fn day(year: i32, month: u32, day: u32) -> i64 {
    at(year, month, day, 0, 0)
}

fn ranges<U>(grouped: &GroupedBy<U>) -> Vec<(usize, usize)> {
    grouped.buckets.iter().map(|b| (b.start, b.end)).collect()
}

fn labels<U>(grouped: &GroupedBy<U>) -> Vec<i64> {
    grouped.buckets.iter().map(|b| b.start_timestamp).collect()
}

fn january_2022() -> Vec<i64> {
    let mut days = Vec::new();
    for d in [5, 6, 7, 10, 11, 12, 13, 14, 18, 19, 20, 21, 24, 25, 26, 27, 28] {
        days.push(day(2022, 1, d));
    }
    days
}

#[test]
fn weekly_buckets_of_trading_days() {
    let timestamps = january_2022();
    let values: Vec<i64> = (0..17).collect();
    let grouped = groupby_weekly(&timestamps, &values).unwrap();
    assert_eq!(ranges(&grouped), vec![(0, 3), (3, 8), (8, 12), (12, 17)]);
    assert_eq!(
        labels(&grouped),
        vec![day(2022, 1, 3), day(2022, 1, 10), day(2022, 1, 17), day(2022, 1, 24)]
    );
    assert_eq!(grouped.values, &values);
}

#[test]
fn first_bucket_starts_on_monday_midnight() {
    // a Wednesday afternoon: the wrapper must move it back to Monday 00:00
    let timestamps = vec![at(2022, 1, 5, 15, 30), at(2022, 1, 6, 15, 30), at(2022, 1, 12, 15, 30)];
    let values = vec![1, 2, 3];
    let grouped = groupby_weekly(&timestamps, &values).unwrap();
    assert_eq!(grouped.buckets[0].start_timestamp, day(2022, 1, 3));
    assert_ne!(grouped.buckets[0].start_timestamp, timestamps[0]);
    assert_eq!(ranges(&grouped), vec![(0, 2), (2, 3)]);
}

#[test]
fn monday_midnight_is_its_own_week_start() {
    let timestamps = vec![day(2022, 1, 3), day(2022, 1, 9), day(2022, 1, 10)];
    let values = vec![1, 2, 3];
    let grouped = groupby_weekly(&timestamps, &values).unwrap();
    assert_eq!(labels(&grouped), vec![day(2022, 1, 3), day(2022, 1, 10)]);
    assert_eq!(ranges(&grouped), vec![(0, 2), (2, 3)]);
}

#[test]
fn week_of_new_year_belongs_to_the_old_year() {
    // Saturday 2022-01-01 lies in ISO week 2021-W52, which began on 2021-12-27
    let timestamps = vec![day(2022, 1, 1), day(2022, 1, 2), day(2022, 1, 3)];
    let grouped = groupby_weekly(&timestamps, &timestamps).unwrap();
    assert_eq!(labels(&grouped), vec![day(2021, 12, 27), day(2022, 1, 3)]);
    assert_eq!(ranges(&grouped), vec![(0, 2), (2, 3)]);
}

#[test]
fn weeks_before_the_epoch() {
    // Wednesday 1969-12-31: Monday of that week is 1969-12-29
    let timestamps = vec![-DAY, 0, 5 * DAY];
    let grouped = groupby_weekly(&timestamps, &timestamps).unwrap();
    assert_eq!(labels(&grouped), vec![-3 * DAY, 4 * DAY]);
    assert_eq!(labels(&grouped), vec![day(1969, 12, 29), day(1970, 1, 5)]);
    assert_eq!(ranges(&grouped), vec![(0, 2), (2, 3)]);
}

#[test]
fn week_start_agrees_with_the_calendar_over_many_days() {
    let mut t = day(1999, 12, 20) + 3_600;
    let mut k = 0;
    while k < 400 {
        let timestamps = vec![t, t + DAY, t + 8 * DAY];
        let grouped = groupby_weekly(&timestamps, &timestamps).unwrap();
        let instant = chrono::DateTime::from_timestamp(t, 0).unwrap();
        let back = chrono::Datelike::weekday(&instant).num_days_from_monday() as i64;
        let monday = t - t.rem_euclid(DAY) - back * DAY;
        assert_eq!(grouped.buckets[0].start_timestamp, monday);
        t += 3 * DAY + 7_201;
        k += 1;
    }
}

#[test]
fn mismatched_lengths_are_refused() {
    let timestamps = january_2022()[..5].to_vec();
    let values = vec![1, 2, 3, 4];
    assert_eq!(
        groupby_weekly(&timestamps, &values).err(),
        Some(AggregationError::InconsistentLengthError(5, 4))
    );
    let none: Vec<i64> = vec![];
    assert_eq!(
        groupby_weekly(&none, &values).err(),
        Some(AggregationError::InconsistentLengthError(0, 4))
    );
}

#[test]
fn a_period_wider_than_the_span_is_refused() {
    let exceeds = Some(AggregationError::BucketWidthError(WidthMismatch::ExceedsSpan));
    let none: Vec<i64> = vec![];
    assert_eq!(groupby_weekly(&none, &none).err(), exceeds);
    let one = vec![day(2022, 1, 5)];
    assert_eq!(groupby_weekly(&one, &one).err(), exceeds);
    // Monday to Sunday of one week: one second short of a week
    let week = vec![day(2022, 1, 3), day(2022, 1, 6), at(2022, 1, 9, 23, 59) + 59];
    assert_eq!(groupby_weekly(&week, &week).err(), exceeds);
    // the next second starts the next week
    let longer = vec![day(2022, 1, 3), day(2022, 1, 6), day(2022, 1, 10)];
    assert_eq!(ranges(&groupby_weekly(&longer, &longer).unwrap()), vec![(0, 2), (2, 3)]);
}

#[test]
fn a_period_narrower_than_the_sampling_interval_is_refused() {
    let sparse = vec![day(2022, 1, 3), day(2022, 1, 17), day(2022, 1, 18)];
    assert_eq!(
        groupby_weekly(&sparse, &sparse).err(),
        Some(AggregationError::BucketWidthError(WidthMismatch::Upsampling))
    );
    // an interval of exactly one week is accepted
    let weekly = vec![day(2022, 1, 3), day(2022, 1, 10), day(2022, 1, 17)];
    assert_eq!(
        ranges(&groupby_weekly(&weekly, &weekly).unwrap()),
        vec![(0, 1), (1, 2), (2, 3)]
    );
}

#[test]
fn a_first_timestamp_outside_the_calendar_is_refused() {
    let refused = Some(AggregationError::NumericConversionError);
    for first in [i64::MIN, MIN_TIMESTAMP - 1, MAX_TIMESTAMP + 1, i64::MAX] {
        let timestamps = vec![first, first.saturating_add(DAY)];
        assert_eq!(groupby_weekly(&timestamps, &timestamps).err(), refused);
    }
    assert_eq!(MIN_TIMESTAMP, day(1, 1, 1));
    assert_eq!(MAX_TIMESTAMP, at(9999, 12, 31, 23, 59) + 59);
    let earliest = vec![MIN_TIMESTAMP, MIN_TIMESTAMP + DAY, MIN_TIMESTAMP + 7 * DAY];
    let grouped = groupby_weekly(&earliest, &earliest).unwrap();
    assert_eq!(labels(&grouped), vec![MIN_TIMESTAMP, MIN_TIMESTAMP + 7 * DAY]);
    let latest = vec![MAX_TIMESTAMP, MAX_TIMESTAMP + DAY, i64::MAX];
    let grouped = groupby_weekly(&latest, &latest).unwrap();
    assert_eq!(grouped.buckets[0].start_timestamp, day(9999, 12, 27));
    assert_eq!(ranges(&grouped), vec![(0, 2), (2, 3)]);
    assert_eq!(grouped.buckets[1].start_timestamp, day(9999, 12, 27) + 7 * DAY);
}

#[test]
fn the_length_check_comes_first() {
    let timestamps = vec![i64::MIN];
    let values: Vec<i64> = vec![];
    assert_eq!(
        groupby_weekly(&timestamps, &values).err(),
        Some(AggregationError::InconsistentLengthError(1, 0))
    );
}

#[test]
fn a_gap_gets_no_bucket_and_labels_step_by_one_period() {
    let timestamps = vec![day(2022, 1, 3), day(2022, 1, 4), day(2022, 1, 24), day(2022, 1, 25)];
    let grouped = groupby_weekly(&timestamps, &timestamps).unwrap();
    assert_eq!(ranges(&grouped), vec![(0, 2), (2, 3), (3, 4)]);
    assert_eq!(labels(&grouped), vec![day(2022, 1, 3), day(2022, 1, 10), day(2022, 1, 17)]);
}

#[test]
fn ranges_cover_every_index_once_and_labels_step_by_a_week() {
    let mut seed: u64 = 0x2545_f491_4f6c_dd1d;
    for round in 0..50 {
        let mut timestamps = vec![day(2021, 3, 1) + round * 11 * 3_600];
        for _ in 0..60 {
            seed ^= seed << 13;
            seed ^= seed >> 7;
            seed ^= seed << 17;
            let step = (seed % (6 * DAY as u64)) as i64;
            let last = *timestamps.last().unwrap();
            timestamps.push(last + step);
        }
        let values: Vec<u8> = vec![0; timestamps.len()];
        let grouped = match groupby_weekly(&timestamps, &values) {
            Ok(grouped) => grouped,
            Err(e) => panic!("refused: {:?}", e),
        };
        let mut covered = Vec::new();
        for bucket in grouped.buckets.iter() {
            assert!(bucket.start < bucket.end);
            for i in bucket.start..bucket.end {
                covered.push(i);
            }
        }
        let all: Vec<usize> = (0..timestamps.len()).collect();
        assert_eq!(covered, all);
        for pair in grouped.buckets.windows(2) {
            assert_eq!(pair[1].start_timestamp, pair[0].start_timestamp + WEEK_SECONDS);
        }
    }
}

#[test]
fn group_by_period_weekly_is_groupby_weekly() {
    let timestamps = january_2022();
    let values: Vec<i64> = (0..17).collect();
    let by_period = group_by_period(&timestamps, &values, AggregationPeriod::Weekly).unwrap();
    let weekly = groupby_weekly(&timestamps, &values).unwrap();
    assert_eq!(by_period.buckets, weekly.buckets);
    assert_eq!(period_width(AggregationPeriod::Weekly), 604_800);
    assert_eq!(WEEK_SECONDS, 7 * DAY);
    assert_eq!(
        weekly.buckets[1],
        Bucket { start_timestamp: day(2022, 1, 10), start: 3, end: 8 }
    );
}

#[test]
fn unordered_timestamps_are_still_partitioned() {
    let timestamps = vec![day(2022, 1, 5), day(2022, 1, 4), day(2022, 1, 20), day(2022, 1, 6), day(2022, 1, 12)];
    let grouped = groupby_weekly(&timestamps, &timestamps).unwrap();
    assert_eq!(ranges(&grouped), vec![(0, 2), (2, 5)]);
    assert_eq!(labels(&grouped), vec![day(2022, 1, 3), day(2022, 1, 10)]);
}

#[test]
fn week_starts_across_the_whole_calendar() {
    // 1970-01-05 was a Monday: every week start lies a whole number of weeks from it
    let first_monday = 4 * DAY;
    let mut t = MIN_TIMESTAMP;
    let stride = (MAX_TIMESTAMP - MIN_TIMESTAMP) / 5_000 + 12_345;
    while t <= MAX_TIMESTAMP {
        let timestamps = vec![t, t + DAY, t + 8 * DAY];
        let grouped = groupby_weekly(&timestamps, &timestamps).unwrap();
        let monday = grouped.buckets[0].start_timestamp;
        assert!(monday <= t && t < monday + WEEK_SECONDS);
        assert_eq!((monday - first_monday).rem_euclid(WEEK_SECONDS), 0);
        let instant = chrono::DateTime::from_timestamp(monday, 0).unwrap();
        assert_eq!(chrono::Datelike::weekday(&instant), chrono::Weekday::Mon);
        t += stride;
    }
}
