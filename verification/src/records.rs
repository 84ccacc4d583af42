//! A price record with all its daily fields, and the record grouped into
//! buckets.
//!
//! A grouped record keeps the series as they are and the buckets beside
//! them; the values of a bucket are the slice of a series that the bucket's
//! range names.
use vstd::prelude::*;
use crate::aggregation::{
    average_per_bucket,
    has_empty_bucket,
    is_average_of_buckets,
    is_max_of_buckets,
    max_per_bucket,
    AggregationEntry,
};
use crate::datasets::{in_time_order, sort_rows, time_sorted, PriceRow};
use crate::deltas::{all_given, measure_trailing, present, trailing, Measure};
use crate::enums::{Currency, DeltaType, MetricType};
use crate::errors::AggregationError;
use crate::grouping::{
    buckets_within,
    groupby_weekly,
    grouping_error,
    is_grouping,
    week_start,
    Bucket,
    WEEK_SECONDS,
};

verus! {

/// The daily observations of one symbol, one entry per day in each series.
#[derive(Debug)]
pub struct PriceRecord {
    pub ticker_symbol: String,
    pub timestamp: Vec<i64>,
    pub open_price: Vec<i64>,
    pub high_price: Vec<i64>,
    pub low_price: Vec<i64>,
    pub close_price: Vec<i64>,
    pub adj_close: Vec<i64>,
    pub volume: Vec<i32>,
    pub currency: Currency,
}

/// A price record together with its weekly buckets and the percentage
/// deltas that have been computed for it so far.
#[derive(Debug)]
pub struct GroupedPriceRecord {
    pub ticker_symbol: String,
    pub groupby_duration: i64,
    pub buckets: Vec<Bucket>,
    pub open_price: Vec<i64>,
    pub high_price: Vec<i64>,
    pub low_price: Vec<i64>,
    pub close_price: Vec<i64>,
    pub adj_close: Vec<i64>,
    pub volume: Vec<i32>,
    pub open_low_percentdelta: Option<Vec<Option<i64>>>,
    pub high_open_percentdelta: Option<Vec<Option<i64>>>,
    pub prevclose_low_percentdelta: Option<Vec<Option<i64>>>,
    pub high_prevclose_percentdelta: Option<Vec<Option<i64>>>,
    pub currency: Currency,
}

/// One series of a grouped record.
pub enum VecVecTypes<'a> {
    /// A price series.
    Prices(&'a Vec<i64>),
    /// The volume series.
    Volumes(&'a Vec<i32>),
    /// A series of deltas, some of which may be missing.
    Deltas(&'a Vec<Option<i64>>),
}

/// One scalar per bucket of a grouped record.
#[derive(Debug)]
pub struct PriceRecordResult<'a> {
    pub ticker_symbol: &'a String,
    pub entries: Vec<AggregationEntry>,
    pub currency: Currency,
}

/// The volumes as values of the kind that reducers take.
pub open spec fn volumes_given(volume: Seq<i32>) -> Seq<Option<i64>> {
    volume.map_values(|v: i32| Some(v as i64))
}

/// The values of a series.
pub open spec fn series_values(series: VecVecTypes) -> Seq<Option<i64>> {
    match series {
        VecVecTypes::Prices(prices) => all_given(prices@),
        VecVecTypes::Volumes(volume) => volumes_given(volume@),
        VecVecTypes::Deltas(deltas) => deltas@,
    }
}

impl PriceRecord {
    /// The days of the record, one row each.
    pub open spec fn rows(&self) -> Seq<PriceRow> {
        Seq::new(
            self.timestamp@.len(),
            |i: int|
                PriceRow {
                    timestamp: self.timestamp@[i],
                    open_price: self.open_price@[i],
                    close_price: self.close_price@[i],
                    high_price: self.high_price@[i],
                    low_price: self.low_price@[i],
                    adj_close: self.adj_close@[i],
                    volume: self.volume@[i],
                },
        )
    }

    /// The record of a symbol whose days are `rows`, put in ascending order
    /// of their timestamps, rows with one timestamp in the order given.
    /// Prices are in US dollars.
    pub fn from_rows(ticker_symbol: &str, rows: Vec<PriceRow>) -> (record: Self)
        ensures
            record.length_error() is None,
            record.rows() == time_sorted(rows@),
            in_time_order(record.rows()),
            record.rows().to_multiset() == rows@.to_multiset(),
            record.ticker_symbol@ == ticker_symbol@,
            record.currency == Currency::USD,
    {
        let sorted = sort_rows(rows);
        let mut record = PriceRecord {
            ticker_symbol: ticker_symbol.to_owned(),
            timestamp: Vec::with_capacity(sorted.len()),
            open_price: Vec::with_capacity(sorted.len()),
            high_price: Vec::with_capacity(sorted.len()),
            low_price: Vec::with_capacity(sorted.len()),
            close_price: Vec::with_capacity(sorted.len()),
            adj_close: Vec::with_capacity(sorted.len()),
            volume: Vec::with_capacity(sorted.len()),
            currency: Currency::USD,
        };
        let mut i: usize = 0;
        assert(record.rows() =~= sorted@.take(0));
        while i < sorted.len()
            invariant
                i <= sorted@.len(),
                record.length_error() is None,
                record.rows() == sorted@.take(i as int),
                record.ticker_symbol@ == ticker_symbol@,
                record.currency == Currency::USD,
            decreases sorted@.len() - i,
        {
            let ghost before = record.rows();
            let row = sorted[i];
            record.timestamp.push(row.timestamp);
            record.open_price.push(row.open_price);
            record.high_price.push(row.high_price);
            record.low_price.push(row.low_price);
            record.close_price.push(row.close_price);
            record.adj_close.push(row.adj_close);
            record.volume.push(row.volume);
            assert(record.rows() =~= before.push(row));
            assert(sorted@.take(i + 1) =~= sorted@.take(i as int).push(row));
            i += 1;
        }
        assert(sorted@.take(sorted@.len() as int) =~= sorted@);
        record
    }

    /// The first series, in the order of the fields, whose length differs
    /// from that of the timestamps, as the error that names both lengths.
    pub open spec fn length_error(&self) -> Option<AggregationError> {
        let n = self.timestamp@.len();
        if self.open_price@.len() != n {
            Some(AggregationError::InconsistentLengthError(n as usize, self.open_price@.len() as usize))
        } else if self.high_price@.len() != n {
            Some(AggregationError::InconsistentLengthError(n as usize, self.high_price@.len() as usize))
        } else if self.low_price@.len() != n {
            Some(AggregationError::InconsistentLengthError(n as usize, self.low_price@.len() as usize))
        } else if self.close_price@.len() != n {
            Some(
                AggregationError::InconsistentLengthError(n as usize, self.close_price@.len() as usize),
            )
        } else if self.adj_close@.len() != n {
            Some(AggregationError::InconsistentLengthError(n as usize, self.adj_close@.len() as usize))
        } else if self.volume@.len() != n {
            Some(AggregationError::InconsistentLengthError(n as usize, self.volume@.len() as usize))
        } else {
            None
        }
    }

    /// The error that grouping this record by weeks fails with, if it fails.
    pub open spec fn grouping_error(&self) -> Option<AggregationError> {
        if self.length_error() is Some {
            self.length_error()
        } else {
            grouping_error(
                self.timestamp@,
                self.timestamp@.len(),
                crate::inputs::AggregationPeriod::Weekly,
            )
        }
    }

    fn check_lengths(&self) -> (result: Result<(), AggregationError>)
        ensures
            match result {
                Ok(_) => self.length_error() is None,
                Err(e) => self.length_error() == Some(e),
            },
    {
        let n = self.timestamp.len();
        if self.open_price.len() != n {
            Err(AggregationError::InconsistentLengthError(n, self.open_price.len()))
        } else if self.high_price.len() != n {
            Err(AggregationError::InconsistentLengthError(n, self.high_price.len()))
        } else if self.low_price.len() != n {
            Err(AggregationError::InconsistentLengthError(n, self.low_price.len()))
        } else if self.close_price.len() != n {
            Err(AggregationError::InconsistentLengthError(n, self.close_price.len()))
        } else if self.adj_close.len() != n {
            Err(AggregationError::InconsistentLengthError(n, self.adj_close.len()))
        } else if self.volume.len() != n {
            Err(AggregationError::InconsistentLengthError(n, self.volume.len()))
        } else {
            Ok(())
        }
    }

    /// Groups the record into buckets of one ISO week each.
    ///
    /// The series move into the grouped record unchanged; no delta is
    /// computed yet. Fails if a series differs in length from the
    /// timestamps, or as `grouping::groupby_weekly` does.
    pub fn groupby_weekly(self) -> (result: Result<GroupedPriceRecord, AggregationError>)
        ensures
            match result {
                Ok(grouped) => {
                    &&& self.grouping_error() is None
                    &&& grouped.well_formed()
                    &&& is_grouping(
                        grouped.buckets@,
                        self.timestamp@,
                        week_start(self.timestamp@[0] as int),
                        604_800,
                    )
                    &&& grouped.groupby_duration == 604_800
                    &&& grouped.ticker_symbol@ == self.ticker_symbol@
                    &&& grouped.open_price@ == self.open_price@
                    &&& grouped.high_price@ == self.high_price@
                    &&& grouped.low_price@ == self.low_price@
                    &&& grouped.close_price@ == self.close_price@
                    &&& grouped.adj_close@ == self.adj_close@
                    &&& grouped.volume@ == self.volume@
                    &&& grouped.currency == self.currency
                    &&& grouped.open_low_percentdelta is None
                    &&& grouped.high_open_percentdelta is None
                    &&& grouped.prevclose_low_percentdelta is None
                    &&& grouped.high_prevclose_percentdelta is None
                },
                Err(e) => self.grouping_error() == Some(e),
            },
    {
        match self.check_lengths() {
            Err(e) => {
                return Err(e);
            },
            Ok(_) => {},
        }
        let buckets = match groupby_weekly(&self.timestamp, &self.open_price) {
            Ok(grouped) => grouped.buckets,
            Err(e) => {
                return Err(e);
            },
        };
        Ok(
            GroupedPriceRecord {
                ticker_symbol: self.ticker_symbol,
                groupby_duration: WEEK_SECONDS,
                buckets,
                open_price: self.open_price,
                high_price: self.high_price,
                low_price: self.low_price,
                close_price: self.close_price,
                adj_close: self.adj_close,
                volume: self.volume,
                open_low_percentdelta: None,
                high_open_percentdelta: None,
                prevclose_low_percentdelta: None,
                high_prevclose_percentdelta: None,
                currency: self.currency,
            },
        )
    }
}

/// A series of deltas, where there is one, has `n` entries.
pub open spec fn deltas_match(deltas: Option<Vec<Option<i64>>>, n: nat) -> bool {
    deltas is Some ==> deltas.unwrap()@.len() == n
}

impl GroupedPriceRecord {
    /// The number of observations.
    pub open spec fn len(&self) -> nat {
        self.close_price@.len()
    }

    /// All series have one length, and every bucket is a range of their
    /// indices.
    pub open spec fn well_formed(&self) -> bool {
        &&& self.open_price@.len() == self.len()
        &&& self.high_price@.len() == self.len()
        &&& self.low_price@.len() == self.len()
        &&& self.adj_close@.len() == self.len()
        &&& self.volume@.len() == self.len()
        &&& deltas_match(self.open_low_percentdelta, self.len())
        &&& deltas_match(self.high_open_percentdelta, self.len())
        &&& deltas_match(self.prevclose_low_percentdelta, self.len())
        &&& deltas_match(self.high_prevclose_percentdelta, self.len())
        &&& buckets_within(self.buckets@, self.len() as int)
    }

    /// The percentage by which each day's high lies above the close of the
    /// day before.
    pub open spec fn high_over_prevclose(&self) -> Seq<Option<i64>> {
        trailing(Measure::PercentageRise, self.high_price@, self.close_price@)
    }

    /// The percentage by which each day's low lies below the close of the
    /// day before.
    pub open spec fn low_under_prevclose(&self) -> Seq<Option<i64>> {
        trailing(Measure::PercentageFall, self.low_price@, self.close_price@)
    }

    /// Computes the two percentage deltas against the previous close, each
    /// unless the record holds it already, and leaves the rest of the record
    /// as it is.
    pub fn with_prevclose_deltas(self) -> (done: Self)
        requires
            self.well_formed(),
        ensures
            done.well_formed(),
            done.high_prevclose_percentdelta is Some,
            done.prevclose_low_percentdelta is Some,
            done.high_prevclose_percentdelta.unwrap()@ == (match self.high_prevclose_percentdelta {
                Some(held) => held@,
                None => self.high_over_prevclose(),
            }),
            done.prevclose_low_percentdelta.unwrap()@ == (match self.prevclose_low_percentdelta {
                Some(held) => held@,
                None => self.low_under_prevclose(),
            }),
            done.ticker_symbol@ == self.ticker_symbol@,
            done.groupby_duration == self.groupby_duration,
            done.buckets@ == self.buckets@,
            done.open_price@ == self.open_price@,
            done.high_price@ == self.high_price@,
            done.low_price@ == self.low_price@,
            done.close_price@ == self.close_price@,
            done.adj_close@ == self.adj_close@,
            done.volume@ == self.volume@,
            done.currency == self.currency,
            done.open_low_percentdelta == self.open_low_percentdelta,
            done.high_open_percentdelta == self.high_open_percentdelta,
    {
        let mut done = self;
        if done.high_prevclose_percentdelta.is_none() {
            done.high_prevclose_percentdelta = Some(
                measure_trailing(Measure::PercentageRise, &done.high_price, &done.close_price),
            );
        }
        if done.prevclose_low_percentdelta.is_none() {
            done.prevclose_low_percentdelta = Some(
                measure_trailing(Measure::PercentageFall, &done.low_price, &done.close_price),
            );
        }
        done
    }

    /// The series that `metric` names, or the reason why there is none:
    /// `MetricNotCalculated` for a percentage delta that the record does not
    /// hold, `MetricNotImplemented` for a price delta.
    pub open spec fn metric(&self, metric: MetricType) -> Result<VecVecTypes, AggregationError> {
        match metric {
            MetricType::OpenPrice => Ok(VecVecTypes::Prices(&self.open_price)),
            MetricType::LowPrice => Ok(VecVecTypes::Prices(&self.low_price)),
            MetricType::HighPrice => Ok(VecVecTypes::Prices(&self.high_price)),
            MetricType::ClosePrice => Ok(VecVecTypes::Prices(&self.close_price)),
            MetricType::AdjClosePrice => Ok(VecVecTypes::Prices(&self.adj_close)),
            MetricType::Volume => Ok(VecVecTypes::Volumes(&self.volume)),
            MetricType::PercentageDelta(delta) => {
                let held = match delta {
                    DeltaType::HighOpen => self.high_open_percentdelta,
                    DeltaType::OpenLow => self.open_low_percentdelta,
                    DeltaType::HighPrevClose => self.high_prevclose_percentdelta,
                    DeltaType::PrevCloseLow => self.prevclose_low_percentdelta,
                };
                match held {
                    Some(deltas) => Ok(VecVecTypes::Deltas(&deltas)),
                    None => Err(AggregationError::MetricNotCalculated),
                }
            },
            MetricType::PriceDelta(_) => Err(AggregationError::MetricNotImplemented),
        }
    }

    /// The series that `metric` names.
    pub fn get_metric(&self, metric: MetricType) -> (result: Result<VecVecTypes, AggregationError>)
        ensures
            result == self.metric(metric),
    {
        match metric {
            MetricType::OpenPrice => Ok(VecVecTypes::Prices(&self.open_price)),
            MetricType::LowPrice => Ok(VecVecTypes::Prices(&self.low_price)),
            MetricType::HighPrice => Ok(VecVecTypes::Prices(&self.high_price)),
            MetricType::ClosePrice => Ok(VecVecTypes::Prices(&self.close_price)),
            MetricType::AdjClosePrice => Ok(VecVecTypes::Prices(&self.adj_close)),
            MetricType::Volume => Ok(VecVecTypes::Volumes(&self.volume)),
            MetricType::PercentageDelta(delta) => {
                let held = match delta {
                    DeltaType::HighOpen => &self.high_open_percentdelta,
                    DeltaType::OpenLow => &self.open_low_percentdelta,
                    DeltaType::HighPrevClose => &self.high_prevclose_percentdelta,
                    DeltaType::PrevCloseLow => &self.prevclose_low_percentdelta,
                };
                match held {
                    Some(deltas) => Ok(VecVecTypes::Deltas(deltas)),
                    None => Err(AggregationError::MetricNotCalculated),
                }
            },
            MetricType::PriceDelta(_) => Err(AggregationError::MetricNotImplemented),
        }
    }

    /// The largest value of the series `metric` in each bucket.
    ///
    /// Fails as `get_metric` does, and not otherwise.
    pub fn max(&self, metric: MetricType) -> (result: Result<PriceRecordResult, AggregationError>)
        requires
            self.well_formed(),
        ensures
            match result {
                Ok(found) => {
                    &&& self.metric(metric) is Ok
                    &&& is_max_of_buckets(
                        found.entries@,
                        self.buckets@,
                        series_values(self.metric(metric).unwrap()),
                    )
                    &&& found.ticker_symbol@ == self.ticker_symbol@
                    &&& found.currency == self.currency
                },
                Err(e) => self.metric(metric) == Err::<VecVecTypes, AggregationError>(e),
            },
    {
        let series = match self.get_metric(metric) {
            Ok(series) => series,
            Err(e) => {
                return Err(e);
            },
        };
        let values = values_of(series);
        let entries = max_per_bucket(&self.buckets, &values);
        Ok(PriceRecordResult { ticker_symbol: &self.ticker_symbol, entries, currency: self.currency })
    }

    /// The mean of the series `metric` in each bucket, rounded toward zero.
    ///
    /// Fails as `get_metric` does; otherwise fails with `EmptyBucketError`
    /// if a bucket holds no observation.
    pub fn avg(&self, metric: MetricType) -> (result: Result<PriceRecordResult, AggregationError>)
        requires
            self.well_formed(),
        ensures
            match result {
                Ok(found) => {
                    &&& self.metric(metric) is Ok
                    &&& !has_empty_bucket(self.buckets@)
                    &&& is_average_of_buckets(
                        found.entries@,
                        self.buckets@,
                        series_values(self.metric(metric).unwrap()),
                    )
                    &&& found.ticker_symbol@ == self.ticker_symbol@
                    &&& found.currency == self.currency
                },
                Err(e) => match self.metric(metric) {
                    Err(reason) => e == reason,
                    Ok(_) => e == AggregationError::EmptyBucketError && has_empty_bucket(
                        self.buckets@,
                    ),
                },
            },
    {
        let series = match self.get_metric(metric) {
            Ok(series) => series,
            Err(e) => {
                return Err(e);
            },
        };
        let values = values_of(series);
        match average_per_bucket(&self.buckets, &values) {
            Ok(entries) => Ok(
                PriceRecordResult {
                    ticker_symbol: &self.ticker_symbol,
                    entries,
                    currency: self.currency,
                },
            ),
            Err(e) => Err(e),
        }
    }
}

/// The values of a series, as reducers take them.
pub fn values_of(series: VecVecTypes) -> (values: Vec<Option<i64>>)
    ensures
        values@ == series_values(series),
{
    match series {
        VecVecTypes::Prices(prices) => present(prices),
        VecVecTypes::Volumes(volume) => {
            let mut values: Vec<Option<i64>> = Vec::with_capacity(volume.len());
            let mut i: usize = 0;
            while i < volume.len()
                invariant
                    i <= volume@.len(),
                    values@.len() == i,
                    forall|j: int| 0 <= j < i ==> values@[j] == Some(volume@[j] as i64),
                decreases volume@.len() - i,
            {
                values.push(Some(volume[i] as i64));
                i += 1;
            }
            assert(values@ =~= volumes_given(volume@));
            values
        },
        VecVecTypes::Deltas(deltas) => {
            let mut values: Vec<Option<i64>> = Vec::with_capacity(deltas.len());
            let mut i: usize = 0;
            while i < deltas.len()
                invariant
                    i <= deltas@.len(),
                    values@.len() == i,
                    forall|j: int| 0 <= j < i ==> values@[j] == deltas@[j],
                decreases deltas@.len() - i,
            {
                values.push(deltas[i]);
                i += 1;
            }
            assert(values@ =~= deltas@);
            values
        },
    }
}

} // verus!
