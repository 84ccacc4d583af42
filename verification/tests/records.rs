use market_analysis::aggregation::AggregationEntry;
use market_analysis::datasets::PriceRow;
use market_analysis::enums::{Currency, DeltaType, MetricType};
use market_analysis::errors::{AggregationError, WidthMismatch};
use market_analysis::grouping::Bucket;
use market_analysis::records::{values_of, GroupedPriceRecord, PriceRecord, VecVecTypes};

const DAY: i64 = 86_400;
const MONDAY: i64 = 1_641_168_000; // 2022-01-03T00:00:00Z

fn day_row(day: i64, base: i64) -> PriceRow {
    PriceRow {
        timestamp: MONDAY + day * DAY,
        open_price: base,
        close_price: base + 1,
        high_price: base + 2,
        low_price: base - 1,
        adj_close: base + 3,
        volume: base as i32 * 10,
    }
}

fn two_weeks() -> PriceRecord {
    // Wednesday to Friday, then Monday to Thursday
    let rows = vec![
        day_row(8, 140),
        day_row(2, 100),
        day_row(3, 110),
        day_row(4, 90),
        day_row(7, 120),
        day_row(9, 100),
        day_row(10, 130),
    ];
    PriceRecord::from_rows("XLK", rows)
}

fn values(entries: &Vec<AggregationEntry>) -> Vec<Option<i64>> {
    entries.iter().map(|e| e.value).collect()
}

#[test]
fn a_record_from_rows_is_in_time_order() {
    let record = two_weeks();
    assert_eq!(record.ticker_symbol, "XLK");
    assert_eq!(record.currency, Currency::USD);
    assert_eq!(
        record.timestamp,
        vec![2, 3, 4, 7, 8, 9, 10].iter().map(|d| MONDAY + d * DAY).collect::<Vec<i64>>()
    );
    assert_eq!(record.open_price, vec![100, 110, 90, 120, 140, 100, 130]);
    assert_eq!(record.close_price, vec![101, 111, 91, 121, 141, 101, 131]);
    assert_eq!(record.high_price, vec![102, 112, 92, 122, 142, 102, 132]);
    assert_eq!(record.low_price, vec![99, 109, 89, 119, 139, 99, 129]);
    assert_eq!(record.adj_close, vec![103, 113, 93, 123, 143, 103, 133]);
    assert_eq!(record.volume, vec![1000, 1100, 900, 1200, 1400, 1000, 1300]);
}

#[test]
fn test_groupby_weekly() {
    let grouped = two_weeks().groupby_weekly().unwrap();
    println!("{:#?}", grouped);
    assert_eq!(
        grouped.buckets,
        vec![
            Bucket { start_timestamp: MONDAY, start: 0, end: 3 },
            Bucket { start_timestamp: MONDAY + 7 * DAY, start: 3, end: 7 },
        ]
    );
    assert_eq!(grouped.groupby_duration, 7 * DAY);
    assert_eq!(grouped.ticker_symbol, "XLK");
    assert_eq!(grouped.open_price, vec![100, 110, 90, 120, 140, 100, 130]);
    assert_eq!(grouped.volume, vec![1000, 1100, 900, 1200, 1400, 1000, 1300]);
    assert_eq!(grouped.high_prevclose_percentdelta, None);
    assert_eq!(grouped.prevclose_low_percentdelta, None);
    assert_eq!(grouped.high_open_percentdelta, None);
    assert_eq!(grouped.open_low_percentdelta, None);
}

#[test]
fn test_groupby_weekly_with_prevclose_deltas() {
    let grouped = two_weeks().groupby_weekly().unwrap().with_prevclose_deltas();
    println!("{:#?}", grouped);
    // (high - previous close) / previous close * 100, in 1/10000 percent
    assert_eq!(
        grouped.high_prevclose_percentdelta,
        Some(vec![
            None,
            Some(108_910),
            Some(-171_171),
            Some(340_659),
            Some(173_553),
            Some(-276_595),
            Some(306_930),
        ])
    );
    // (previous close - low) / previous close * 100
    assert_eq!(
        grouped.prevclose_low_percentdelta,
        Some(vec![
            None,
            Some(-79_207),
            Some(198_198),
            Some(-307_692),
            Some(-148_760),
            Some(297_872),
            Some(-277_227),
        ])
    );
    assert_eq!(grouped.high_open_percentdelta, None);
    assert_eq!(grouped.open_price, vec![100, 110, 90, 120, 140, 100, 130]);
}

#[test]
fn deltas_that_are_held_are_kept() {
    let mut grouped = two_weeks().groupby_weekly().unwrap();
    let held = vec![Some(1), Some(2), Some(3), Some(4), Some(5), Some(6), Some(7)];
    grouped.high_prevclose_percentdelta = Some(held.clone());
    let done = grouped.with_prevclose_deltas();
    assert_eq!(done.high_prevclose_percentdelta, Some(held));
    assert_eq!(done.prevclose_low_percentdelta.unwrap()[1], Some(-79_207));
}

#[test]
fn test_max_function() {
    let grouped = two_weeks().groupby_weekly().unwrap();
    let found = grouped.max(MetricType::OpenPrice).unwrap();
    println!("{:#?}", found);
    assert_eq!(
        found.entries,
        vec![
            AggregationEntry { timestamp: MONDAY, value: Some(110) },
            AggregationEntry { timestamp: MONDAY + 7 * DAY, value: Some(140) },
        ]
    );
    assert_eq!(found.ticker_symbol, "XLK");
    assert_eq!(found.currency, Currency::USD);
    assert_eq!(values(&grouped.max(MetricType::LowPrice).unwrap().entries), vec![Some(109), Some(139)]);
    assert_eq!(values(&grouped.max(MetricType::HighPrice).unwrap().entries), vec![Some(112), Some(142)]);
    assert_eq!(values(&grouped.max(MetricType::ClosePrice).unwrap().entries), vec![Some(111), Some(141)]);
    assert_eq!(
        values(&grouped.max(MetricType::AdjClosePrice).unwrap().entries),
        vec![Some(113), Some(143)]
    );
    assert_eq!(values(&grouped.max(MetricType::Volume).unwrap().entries), vec![Some(1100), Some(1400)]);
}

#[test]
fn test_avg_function() {
    let grouped = two_weeks().groupby_weekly().unwrap();
    let found = grouped.avg(MetricType::OpenPrice).unwrap();
    println!("{:#?}", found);
    assert_eq!(
        found.entries,
        vec![
            AggregationEntry { timestamp: MONDAY, value: Some(100) },
            AggregationEntry { timestamp: MONDAY + 7 * DAY, value: Some(122) },
        ]
    );
    assert_eq!(values(&grouped.avg(MetricType::Volume).unwrap().entries), vec![Some(1000), Some(1225)]);
}

#[test]
fn reducers_over_deltas() {
    let grouped = two_weeks().groupby_weekly().unwrap().with_prevclose_deltas();
    let metric = MetricType::PercentageDelta(DeltaType::HighPrevClose);
    assert_eq!(
        values(&grouped.max(metric).unwrap().entries),
        vec![Some(108_910), Some(340_659)]
    );
    // the first bucket holds the delta of the first day, which is missing
    assert_eq!(
        values(&grouped.avg(metric).unwrap().entries),
        vec![None, Some((340_659 + 173_553 - 276_595 + 306_930) / 4)]
    );
    let metric = MetricType::PercentageDelta(DeltaType::PrevCloseLow);
    assert_eq!(
        values(&grouped.max(metric).unwrap().entries),
        vec![Some(198_198), Some(297_872)]
    );
}

#[test]
fn metrics_that_are_not_there() {
    let grouped = two_weeks().groupby_weekly().unwrap();
    for delta in [DeltaType::HighOpen, DeltaType::OpenLow, DeltaType::HighPrevClose, DeltaType::PrevCloseLow] {
        let metric = MetricType::PercentageDelta(delta);
        assert!(matches!(grouped.get_metric(metric), Err(AggregationError::MetricNotCalculated)));
        assert_eq!(grouped.max(metric).err(), Some(AggregationError::MetricNotCalculated));
        assert_eq!(grouped.avg(metric).err(), Some(AggregationError::MetricNotCalculated));
        let metric = MetricType::PriceDelta(delta);
        assert!(matches!(grouped.get_metric(metric), Err(AggregationError::MetricNotImplemented)));
        assert_eq!(grouped.max(metric).err(), Some(AggregationError::MetricNotImplemented));
        assert_eq!(grouped.avg(metric).err(), Some(AggregationError::MetricNotImplemented));
    }
    let done = grouped.with_prevclose_deltas();
    assert!(matches!(
        done.get_metric(MetricType::PercentageDelta(DeltaType::HighPrevClose)),
        Ok(VecVecTypes::Deltas(_))
    ));
    assert!(matches!(
        done.get_metric(MetricType::PercentageDelta(DeltaType::HighOpen)),
        Err(AggregationError::MetricNotCalculated)
    ));
}

#[test]
fn metrics_name_their_series() {
    let grouped = two_weeks().groupby_weekly().unwrap();
    match grouped.get_metric(MetricType::LowPrice) {
        Ok(VecVecTypes::Prices(prices)) => assert_eq!(prices, &grouped.low_price),
        _ => panic!("no price series"),
    }
    match grouped.get_metric(MetricType::Volume) {
        Ok(VecVecTypes::Volumes(volume)) => assert_eq!(volume, &grouped.volume),
        _ => panic!("no volume series"),
    }
    let volume = vec![3, -4];
    assert_eq!(values_of(VecVecTypes::Volumes(&volume)), vec![Some(3), Some(-4)]);
    let deltas = vec![None, Some(5)];
    assert_eq!(values_of(VecVecTypes::Deltas(&deltas)), vec![None, Some(5)]);
    let prices = vec![7];
    assert_eq!(values_of(VecVecTypes::Prices(&prices)), vec![Some(7)]);
}

#[test]
fn an_average_over_an_empty_bucket_fails() {
    let mut grouped: GroupedPriceRecord = two_weeks().groupby_weekly().unwrap();
    grouped.buckets.push(Bucket { start_timestamp: MONDAY + 14 * DAY, start: 7, end: 7 });
    assert_eq!(grouped.avg(MetricType::OpenPrice).err(), Some(AggregationError::EmptyBucketError));
    assert_eq!(
        values(&grouped.max(MetricType::OpenPrice).unwrap().entries),
        vec![Some(110), Some(140), Some(0)]
    );
}

#[test]
fn a_record_with_a_short_series_is_refused() {
    let mut record = two_weeks();
    record.volume.pop();
    assert_eq!(
        record.groupby_weekly().err(),
        Some(AggregationError::InconsistentLengthError(7, 6))
    );
    let mut record = two_weeks();
    record.high_price.push(1);
    record.volume.pop();
    assert_eq!(
        record.groupby_weekly().err(),
        Some(AggregationError::InconsistentLengthError(7, 8))
    );
}

#[test]
fn a_record_that_spans_less_than_a_week_is_refused() {
    let record = PriceRecord::from_rows("XLK", vec![day_row(0, 10), day_row(1, 20), day_row(4, 30)]);
    assert_eq!(
        record.groupby_weekly().err(),
        Some(AggregationError::BucketWidthError(WidthMismatch::ExceedsSpan))
    );
    let record = PriceRecord::from_rows("XLK", vec![]);
    assert_eq!(
        record.groupby_weekly().err(),
        Some(AggregationError::BucketWidthError(WidthMismatch::ExceedsSpan))
    );
    let record = PriceRecord::from_rows("XLK", vec![day_row(0, 10), day_row(9, 20), day_row(10, 30)]);
    assert_eq!(
        record.groupby_weekly().err(),
        Some(AggregationError::BucketWidthError(WidthMismatch::Upsampling))
    );
}
