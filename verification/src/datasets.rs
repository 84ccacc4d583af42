//! Price records as a data source supplies them, and what can be read off
//! them.
use vstd::prelude::*;
use vstd::seq_lib::{to_multiset_build, to_multiset_insert};
use crate::deltas::{measure_trailing, trailing, Measure};
use crate::enums::Currency;
use crate::errors::SourceDataError;
use crate::inputs::BasePriceType;

verus! {

/// One day of a source's answer, any field of which may be missing.
#[derive(Debug, Clone, Copy, PartialEq, Eq)]
pub struct Record {
    pub timestamp: Option<i64>,
    pub open_price: Option<i64>,
    pub close_price: Option<i64>,
    pub high_price: Option<i64>,
    pub low_price: Option<i64>,
    pub adj_close_price: Option<i64>,
    pub volume: Option<i32>,
}

/// One day with all its fields.
#[derive(Debug, Clone, Copy, PartialEq, Eq, Structural)]
pub struct PriceRow {
    pub timestamp: i64,
    pub open_price: i64,
    pub close_price: i64,
    pub high_price: i64,
    pub low_price: i64,
    pub adj_close: i64,
    pub volume: i32,
}

/// The fields of a day, in the order in which they are checked.
#[derive(Debug, Clone, Copy, PartialEq, Eq, Structural)]
pub enum Field {
    Timestamp,
    Open,
    Close,
    High,
    Low,
    AdjClose,
    Volume,
}

/// The daily series of one symbol, as Yahoo Finance supplies them.
#[derive(Debug)]
pub struct YahooFinancePriceRecord {
    pub ticker: String,
    pub timestamps: Vec<i64>,
    pub open_prices: Vec<i64>,
    pub close_prices: Vec<i64>,
    pub high_prices: Vec<i64>,
    pub low_prices: Vec<i64>,
    pub volume: Vec<i32>,
    pub currency: Currency,
    pub adj_close: Vec<i64>,
}

/// The first field that a record lacks.
pub open spec fn first_missing(record: Record) -> Option<Field> {
    if record.timestamp is None {
        Some(Field::Timestamp)
    } else if record.open_price is None {
        Some(Field::Open)
    } else if record.close_price is None {
        Some(Field::Close)
    } else if record.high_price is None {
        Some(Field::High)
    } else if record.low_price is None {
        Some(Field::Low)
    } else if record.adj_close_price is None {
        Some(Field::AdjClose)
    } else if record.volume is None {
        Some(Field::Volume)
    } else {
        None
    }
}

/// A record that lacks no field, as a row.
pub open spec fn completed(record: Record) -> PriceRow {
    PriceRow {
        timestamp: record.timestamp.unwrap(),
        open_price: record.open_price.unwrap(),
        close_price: record.close_price.unwrap(),
        high_price: record.high_price.unwrap(),
        low_price: record.low_price.unwrap(),
        adj_close: record.adj_close_price.unwrap(),
        volume: record.volume.unwrap(),
    }
}

/// The rows that a source's records make: a record without a timestamp is
/// passed over, every other record has to be complete. Where one is not, the
/// result is the first field that the first such record lacks.
pub open spec fn complete_rows(records: Seq<Record>) -> Result<Seq<PriceRow>, Field>
    decreases records.len(),
{
    if records.len() == 0 {
        Ok(Seq::empty())
    } else {
        match complete_rows(records.drop_last()) {
            Err(field) => Err(field),
            Ok(rows) => if records.last().timestamp is None {
                Ok(rows)
            } else {
                match first_missing(records.last()) {
                    Some(field) => Err(field),
                    None => Ok(rows.push(completed(records.last()))),
                }
            },
        }
    }
}

/// What the error for a missing field says.
pub open spec fn missing_message(field: Field) -> Seq<char> {
    match field {
        Field::Timestamp => "Missing value identified in the timestamp field."@,
        Field::Open => "Missing value identified in the open price field."@,
        Field::Close => "Missing value identified in the close price field."@,
        Field::High => "Missing value identified in the high price field."@,
        Field::Low => "Missing value identified in the low price field."@,
        Field::AdjClose => "Missing value identified in the adj close field."@,
        Field::Volume => "Missing value identified in the volume field."@,
    }
}

/// No row is later than a row after it.
pub open spec fn in_time_order(rows: Seq<PriceRow>) -> bool {
    forall|i: int, j: int| 0 <= i <= j < rows.len() ==> rows[i].timestamp <= rows[j].timestamp
}

/// The first field that a record lacks.
fn missing_field(record: &Record) -> (field: Option<Field>)
    ensures
        field == first_missing(*record),
{
    if record.timestamp.is_none() {
        Some(Field::Timestamp)
    } else if record.open_price.is_none() {
        Some(Field::Open)
    } else if record.close_price.is_none() {
        Some(Field::Close)
    } else if record.high_price.is_none() {
        Some(Field::High)
    } else if record.low_price.is_none() {
        Some(Field::Low)
    } else if record.adj_close_price.is_none() {
        Some(Field::AdjClose)
    } else if record.volume.is_none() {
        Some(Field::Volume)
    } else {
        None
    }
}

/// A record that lacks no field, as a row.
fn row_of(record: &Record) -> (row: PriceRow)
    requires
        first_missing(*record) is None,
    ensures
        row == completed(*record),
{
    PriceRow {
        timestamp: record.timestamp.unwrap(),
        open_price: record.open_price.unwrap(),
        close_price: record.close_price.unwrap(),
        high_price: record.high_price.unwrap(),
        low_price: record.low_price.unwrap(),
        adj_close: record.adj_close_price.unwrap(),
        volume: record.volume.unwrap(),
    }
}

/// The text of the error for a missing field.
fn message_for(field: Field) -> (message: String)
    ensures
        message@ == missing_message(field),
{
    match field {
        Field::Timestamp => "Missing value identified in the timestamp field.".to_string(),
        Field::Open => "Missing value identified in the open price field.".to_string(),
        Field::Close => "Missing value identified in the close price field.".to_string(),
        Field::High => "Missing value identified in the high price field.".to_string(),
        Field::Low => "Missing value identified in the low price field.".to_string(),
        Field::AdjClose => "Missing value identified in the adj close field.".to_string(),
        Field::Volume => "Missing value identified in the volume field.".to_string(),
    }
}

/// The rows of the records that carry a timestamp, in the order given.
pub fn collect_rows(records: &Vec<Record>) -> (result: Result<Vec<PriceRow>, Field>)
    ensures
        match result {
            Ok(rows) => complete_rows(records@) == Ok::<Seq<PriceRow>, Field>(rows@),
            Err(field) => complete_rows(records@) == Err::<Seq<PriceRow>, Field>(field),
        },
{
    let mut rows: Vec<PriceRow> = Vec::with_capacity(records.len());
    let mut i: usize = 0;
    assert(records@.take(0) =~= Seq::<Record>::empty());
    while i < records.len()
        invariant
            i <= records@.len(),
            complete_rows(records@.take(i as int)) == Ok::<Seq<PriceRow>, Field>(rows@),
        decreases records@.len() - i,
    {
        let record = records[i];
        proof {
            assert(records@.take(i + 1).drop_last() =~= records@.take(i as int));
            assert(records@.take(i + 1).last() == record);
        }
        if record.timestamp.is_some() {
            match missing_field(&record) {
                Some(field) => {
                    proof {
                        lemma_failure_persists(records@, i + 1);
                    }
                    return Err(field);
                },
                None => {
                    rows.push(row_of(&record));
                },
            }
        }
        i += 1;
    }
    assert(records@.take(records@.len() as int) =~= records@);
    Ok(rows)
}

/// Once a record is incomplete, more records do not change the outcome.
proof fn lemma_failure_persists(records: Seq<Record>, n: int)
    requires
        0 <= n <= records.len(),
        complete_rows(records.take(n)) is Err,
    ensures
        complete_rows(records) == complete_rows(records.take(n)),
    decreases records.len() - n,
{
    if n < records.len() {
        assert(records.take(n + 1).drop_last() =~= records.take(n));
        lemma_failure_persists(records, n + 1);
    } else {
        assert(records.take(n) =~= records);
    }
}

/// Where a row with the timestamp `t` is put into rows that are in time
/// order: behind the last row that is not later than it.
pub open spec fn insertion_point(rows: Seq<PriceRow>, t: i64) -> int
    decreases rows.len(),
{
    if rows.len() == 0 || rows.last().timestamp <= t {
        rows.len() as int
    } else {
        insertion_point(rows.drop_last(), t)
    }
}

/// The rows in ascending order of their timestamps, rows with one timestamp
/// in the order in which they came: each row in turn is put behind the last
/// row so far that is not later than it.
pub open spec fn time_sorted(rows: Seq<PriceRow>) -> Seq<PriceRow>
    decreases rows.len(),
{
    if rows.len() == 0 {
        Seq::empty()
    } else {
        let before = time_sorted(rows.drop_last());
        before.insert(insertion_point(before, rows.last().timestamp), rows.last())
    }
}

/// The insertion point lies in the rows or at their end, no row from it on
/// is as early as `t`, and in rows that are in time order no row before it
/// is later than `t`.
proof fn lemma_insertion_point(rows: Seq<PriceRow>, t: i64)
    ensures
        0 <= insertion_point(rows, t) <= rows.len(),
        forall|j: int| insertion_point(rows, t) <= j < rows.len() ==> rows[j].timestamp > t,
        in_time_order(rows) ==> forall|j: int|
            0 <= j < insertion_point(rows, t) ==> rows[j].timestamp <= t,
    decreases rows.len(),
{
    if rows.len() == 0 || rows.last().timestamp <= t {
    } else {
        lemma_insertion_point(rows.drop_last(), t);
        assert forall|j: int| insertion_point(rows, t) <= j < rows.len() implies rows[j].timestamp
            > t by {
            if j < rows.len() - 1 {
                assert(rows.drop_last()[j] == rows[j]);
            }
        }
        if in_time_order(rows) {
            assert forall|i: int, j: int| 0 <= i <= j < rows.drop_last().len() implies rows.drop_last()[i].timestamp
                <= rows.drop_last()[j].timestamp by {
                assert(rows[i].timestamp <= rows[j].timestamp);
            }
            assert forall|j: int| 0 <= j < insertion_point(rows, t) implies rows[j].timestamp
                <= t by {
                assert(rows.drop_last()[j] == rows[j]);
            }
        }
    }
}

/// Sorting by time puts the rows in time order and keeps every row.
pub proof fn lemma_time_sorted(rows: Seq<PriceRow>)
    ensures
        in_time_order(time_sorted(rows)),
        time_sorted(rows).to_multiset() == rows.to_multiset(),
        time_sorted(rows).len() == rows.len(),
    decreases rows.len(),
{
    if rows.len() == 0 {
        assert(rows =~= time_sorted(rows));
    } else {
        let row = rows.last();
        let before = time_sorted(rows.drop_last());
        let at = insertion_point(before, row.timestamp);
        lemma_time_sorted(rows.drop_last());
        lemma_insertion_point(before, row.timestamp);
        let after = before.insert(at, row);
        assert(time_sorted(rows) == after);
        to_multiset_insert(before, at, row);
        to_multiset_build(rows.drop_last(), row);
        assert(rows =~= rows.drop_last().push(row));
        assert(after.to_multiset() =~= rows.to_multiset());
        assert forall|a: int, b: int| 0 <= a <= b < after.len() implies after[a].timestamp
            <= after[b].timestamp by {
            let from_a = if a < at { a } else { a - 1 };
            let from_b = if b < at { b } else { b - 1 };
            if a != at && b != at {
                assert(before[from_a].timestamp <= before[from_b].timestamp);
            } else if a == at && b != at {
                assert(before[from_b].timestamp > row.timestamp);
            } else if b == at && a != at {
                assert(before[from_a].timestamp <= row.timestamp);
            }
        }
    }
}

/// Orders rows by timestamp, ascending; rows with one timestamp keep the
/// order in which they came.
pub fn sort_rows(rows: Vec<PriceRow>) -> (sorted: Vec<PriceRow>)
    ensures
        sorted@ == time_sorted(rows@),
        in_time_order(sorted@),
        sorted@.to_multiset() == rows@.to_multiset(),
{
    let mut sorted: Vec<PriceRow> = Vec::with_capacity(rows.len());
    let mut i: usize = 0;
    assert(rows@.take(0) =~= Seq::<PriceRow>::empty());
    while i < rows.len()
        invariant
            i <= rows@.len(),
            sorted@ == time_sorted(rows@.take(i as int)),
        decreases rows@.len() - i,
    {
        let row = rows[i];
        proof {
            lemma_time_sorted(rows@.take(i as int));
            assert(rows@.take(i + 1).drop_last() =~= rows@.take(i as int));
            assert(rows@.take(i + 1).last() == row);
        }
        let mut at: usize = sorted.len();
        assert(sorted@.take(at as int) =~= sorted@);
        while at > 0 && sorted[at - 1].timestamp > row.timestamp
            invariant
                at <= sorted@.len(),
                insertion_point(sorted@, row.timestamp) == insertion_point(
                    sorted@.take(at as int),
                    row.timestamp,
                ),
            decreases at,
        {
            assert(sorted@.take(at as int).drop_last() =~= sorted@.take(at - 1));
            at -= 1;
        }
        sorted.insert(at, row);
        i += 1;
    }
    proof {
        assert(rows@.take(rows@.len() as int) =~= rows@);
        lemma_time_sorted(rows@);
    }
    sorted
}

impl YahooFinancePriceRecord {
    /// All series have one entry per timestamp.
    pub open spec fn well_formed(&self) -> bool {
        &&& self.open_prices@.len() == self.timestamps@.len()
        &&& self.close_prices@.len() == self.timestamps@.len()
        &&& self.high_prices@.len() == self.timestamps@.len()
        &&& self.low_prices@.len() == self.timestamps@.len()
        &&& self.adj_close@.len() == self.timestamps@.len()
        &&& self.volume@.len() == self.timestamps@.len()
    }

    /// The days of the record, one row each.
    pub open spec fn rows(&self) -> Seq<PriceRow> {
        Seq::new(
            self.timestamps@.len(),
            |i: int|
                PriceRow {
                    timestamp: self.timestamps@[i],
                    open_price: self.open_prices@[i],
                    close_price: self.close_prices@[i],
                    high_price: self.high_prices@[i],
                    low_price: self.low_prices@[i],
                    adj_close: self.adj_close@[i],
                    volume: self.volume@[i],
                },
        )
    }

    /// A record without observations, with room for `num_of_records`.
    pub fn new(ticker_symbol: &str, num_of_records: usize, currency: Currency) -> (record: Self)
        ensures
            record.ticker@ == ticker_symbol@,
            record.currency == currency,
            record.timestamps@.len() == 0,
            record.well_formed(),
    {
        YahooFinancePriceRecord {
            ticker: ticker_symbol.to_owned(),
            timestamps: Vec::with_capacity(num_of_records),
            open_prices: Vec::with_capacity(num_of_records),
            close_prices: Vec::with_capacity(num_of_records),
            high_prices: Vec::with_capacity(num_of_records),
            low_prices: Vec::with_capacity(num_of_records),
            volume: Vec::with_capacity(num_of_records),
            currency,
            adj_close: Vec::with_capacity(num_of_records),
        }
    }

    /// Appends one day.
    pub fn push_row(&mut self, row: PriceRow)
        requires
            old(self).well_formed(),
        ensures
            final(self).well_formed(),
            final(self).rows() == old(self).rows().push(row),
            final(self).ticker@ == old(self).ticker@,
            final(self).currency == old(self).currency,
    {
        self.timestamps.push(row.timestamp);
        self.open_prices.push(row.open_price);
        self.close_prices.push(row.close_price);
        self.high_prices.push(row.high_price);
        self.low_prices.push(row.low_price);
        self.adj_close.push(row.adj_close);
        self.volume.push(row.volume);
        assert(self.rows() =~= old(self).rows().push(row));
    }

    pub fn get_adj_close_prices(&self) -> (prices: &Vec<i64>)
        ensures
            prices@ == self.adj_close@,
    {
        &self.adj_close
    }

    /// The price series that `field` names.
    pub fn get_prices(&self, field: BasePriceType) -> (prices: &Vec<i64>)
        ensures
            prices@ == (match field {
                BasePriceType::Open => self.open_prices@,
                BasePriceType::Close => self.close_prices@,
                BasePriceType::High => self.high_prices@,
                BasePriceType::Low => self.low_prices@,
            }),
    {
        match field {
            BasePriceType::Open => &self.open_prices,
            BasePriceType::Close => &self.close_prices,
            BasePriceType::High => &self.high_prices,
            BasePriceType::Low => &self.low_prices,
        }
    }
}

/// Builds the record of a symbol from the records that the source returned.
///
/// Records without a timestamp are passed over. The others have to be
/// complete: the first one that is not, in the order given, fails the call
/// with `MissingDataError` and the message for the first field it lacks,
/// before anything is sorted. The days of the record are the complete
/// records in ascending order of their timestamps, those with one timestamp
/// in the order given.
pub fn assemble_record(ticker_symbol: &str, currency: Currency, records: &Vec<Record>) -> (result:
    Result<YahooFinancePriceRecord, SourceDataError>)
    ensures
        match result {
            Ok(record) => {
                &&& complete_rows(records@) is Ok
                &&& record.well_formed()
                &&& record.rows() == time_sorted(complete_rows(records@).unwrap())
                &&& in_time_order(record.rows())
                &&& record.rows().to_multiset() == complete_rows(records@).unwrap().to_multiset()
                &&& record.ticker@ == ticker_symbol@
                &&& record.currency == currency
            },
            Err(SourceDataError::MissingDataError(message)) => {
                &&& complete_rows(records@) is Err
                &&& message@ == missing_message(complete_rows(records@)->Err_0)
            },
            Err(_) => false,
        },
{
    let rows = match collect_rows(records) {
        Ok(rows) => rows,
        Err(field) => {
            return Err(SourceDataError::MissingDataError(message_for(field)));
        },
    };
    let sorted = sort_rows(rows);
    let mut record = YahooFinancePriceRecord::new(ticker_symbol, sorted.len(), currency);
    let mut i: usize = 0;
    assert(record.rows() =~= sorted@.take(0));
    while i < sorted.len()
        invariant
            i <= sorted@.len(),
            record.well_formed(),
            record.rows() == sorted@.take(i as int),
            record.ticker@ == ticker_symbol@,
            record.currency == currency,
        decreases sorted@.len() - i,
    {
        assert(sorted@.take(i + 1) =~= sorted@.take(i as int).push(sorted@[i as int]));
        record.push_row(sorted[i]);
        i += 1;
    }
    assert(sorted@.take(sorted@.len() as int) =~= sorted@);
    Ok(record)
}

/// A record that carries timestamps.
pub trait Timestamps {
    /// The timestamps, as a sequence.
    spec fn timestamps(&self) -> Seq<i64>;

    fn get_timestamps(&self) -> (timestamps: &Vec<i64>)
        ensures
            timestamps@ == self.timestamps(),
    ;
}

/// A record that carries the four daily price series.
pub trait Prices {
    spec fn high_prices(&self) -> Seq<i64>;

    spec fn low_prices(&self) -> Seq<i64>;

    spec fn open_prices(&self) -> Seq<i64>;

    spec fn close_prices(&self) -> Seq<i64>;

    spec fn currency(&self) -> Currency;

    fn get_high_prices(&self) -> (prices: &Vec<i64>)
        ensures
            prices@ == self.high_prices(),
    ;

    fn get_low_prices(&self) -> (prices: &Vec<i64>)
        ensures
            prices@ == self.low_prices(),
    ;

    fn get_open_prices(&self) -> (prices: &Vec<i64>)
        ensures
            prices@ == self.open_prices(),
    ;

    fn get_close_prices(&self) -> (prices: &Vec<i64>)
        ensures
            prices@ == self.close_prices(),
    ;

    fn get_currency(&self) -> (currency: Currency)
        ensures
            currency == self.currency(),
    ;
}

/// A record that carries the traded volume.
pub trait Volume {
    spec fn volume(&self) -> Seq<i32>;

    fn get_volume(&self) -> (volume: &Vec<i32>)
        ensures
            volume@ == self.volume(),
    ;
}

/// A record that names its symbol.
pub trait Description {
    spec fn ticker_symbol(&self) -> Seq<char>;

    fn get_ticker_symbol(&self) -> (symbol: &str)
        ensures
            symbol@ == self.ticker_symbol(),
    ;
}

/// Deltas of a day's prices against the close of the day before. The first
/// day has no delta.
pub trait PriceDeltas: Prices {
    /// How far each day's high lies above the previous close.
    fn get_high_prevclose_pricedelta(&self) -> (deltas: Vec<Option<i64>>)
        requires
            self.high_prices().len() == self.close_prices().len(),
        ensures
            deltas@ == trailing(Measure::Rise, self.high_prices(), self.close_prices()),
    {
        measure_trailing(Measure::Rise, self.get_high_prices(), self.get_close_prices())
    }

    /// How far each day's low lies below the previous close.
    fn get_prevclose_low_pricedelta(&self) -> (deltas: Vec<Option<i64>>)
        requires
            self.low_prices().len() == self.close_prices().len(),
        ensures
            deltas@ == trailing(Measure::Fall, self.low_prices(), self.close_prices()),
    {
        measure_trailing(Measure::Fall, self.get_low_prices(), self.get_close_prices())
    }
}

/// The same deltas as percentages of the previous close.
pub trait PriceDeltaPercentages: PriceDeltas {
    /// How far each day's high lies above the previous close, in percent of
    /// that close.
    fn get_high_prevclose_pricedelta_percentage(&self) -> (deltas: Vec<Option<i64>>)
        requires
            self.high_prices().len() == self.close_prices().len(),
        ensures
            deltas@ == trailing(Measure::PercentageRise, self.high_prices(), self.close_prices()),
    {
        measure_trailing(Measure::PercentageRise, self.get_high_prices(), self.get_close_prices())
    }

    /// How far each day's low lies below the previous close, in percent of
    /// that close.
    fn get_prevclose_low_pricedelta_percentage(&self) -> (deltas: Vec<Option<i64>>)
        requires
            self.low_prices().len() == self.close_prices().len(),
        ensures
            deltas@ == trailing(Measure::PercentageFall, self.low_prices(), self.close_prices()),
    {
        measure_trailing(Measure::PercentageFall, self.get_low_prices(), self.get_close_prices())
    }
}

impl Timestamps for YahooFinancePriceRecord {
    open spec fn timestamps(&self) -> Seq<i64> {
        self.timestamps@
    }

    fn get_timestamps(&self) -> (timestamps: &Vec<i64>) {
        &self.timestamps
    }
}

impl Prices for YahooFinancePriceRecord {
    open spec fn high_prices(&self) -> Seq<i64> {
        self.high_prices@
    }

    open spec fn low_prices(&self) -> Seq<i64> {
        self.low_prices@
    }

    open spec fn open_prices(&self) -> Seq<i64> {
        self.open_prices@
    }

    open spec fn close_prices(&self) -> Seq<i64> {
        self.close_prices@
    }

    open spec fn currency(&self) -> Currency {
        self.currency
    }

    fn get_high_prices(&self) -> (prices: &Vec<i64>) {
        &self.high_prices
    }

    fn get_low_prices(&self) -> (prices: &Vec<i64>) {
        &self.low_prices
    }

    fn get_open_prices(&self) -> (prices: &Vec<i64>) {
        &self.open_prices
    }

    fn get_close_prices(&self) -> (prices: &Vec<i64>) {
        &self.close_prices
    }

    fn get_currency(&self) -> (currency: Currency) {
        self.currency
    }
}

impl Volume for YahooFinancePriceRecord {
    open spec fn volume(&self) -> Seq<i32> {
        self.volume@
    }

    fn get_volume(&self) -> (volume: &Vec<i32>) {
        &self.volume
    }
}

impl Description for YahooFinancePriceRecord {
    open spec fn ticker_symbol(&self) -> Seq<char> {
        self.ticker@
    }

    fn get_ticker_symbol(&self) -> (symbol: &str) {
        self.ticker.as_str()
    }
}

impl PriceDeltas for YahooFinancePriceRecord {

}

impl PriceDeltaPercentages for YahooFinancePriceRecord {

}

} // verus!
