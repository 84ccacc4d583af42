//! The user's request: which series to read and how to summarise it.
//!
//! A request is one line of five words separated by white space: the ticker
//! symbol, the price selector, the aggregation period, the start date and
//! the end date. The price selector is the name of a price field, or two
//! such names joined by `|`.
use vstd::prelude::*;
use vstd::string::*;
use crate::errors::InputError;

verus! {

/// The summary computed for each bucket.
#[derive(Clone, Copy, Debug, PartialEq, Eq, Structural)]
pub enum AggregationType {
    Max,
}

/// One of the four daily price fields.
#[derive(Clone, Copy, Debug, PartialEq, Eq, Structural)]
pub enum BasePriceType {
    Open,
    Close,
    High,
    Low,
}

/// A single price field, or two of them for a delta between fields.
#[derive(Clone, Copy, Debug, PartialEq, Eq, Structural)]
pub enum PriceType {
    SinglePrice(BasePriceType),
    DualPrice(BasePriceType, BasePriceType),
}

/// The calendar period that a bucket spans.
#[derive(Clone, Copy, Debug, PartialEq, Eq, Structural)]
pub enum AggregationPeriod {
    Weekly,
}

/// How two price series are combined into one.
#[derive(Clone, Copy, Debug, PartialEq, Eq, Structural)]
pub enum DeltaFunction {
    /// The first series less the second, day by day.
    PriceDelta,
    /// That difference as a percentage of the second series.
    PriceDeltaPercentage,
    /// The first series less the second series of the day before.
    TrailingPriceDelta,
    /// That difference as a percentage of the second series of the day before.
    TrailingPriceDeltaPercentage,
}

/// A request as it was read.
#[derive(Debug)]
pub struct InputArgs {
    pub ticker_symbol: String,
    pub price_type: PriceType,
    pub aggregation_period: AggregationPeriod,
    pub start_date: String,
    pub end_date: String,
}

/// What a request says, the words as sequences of characters.
pub struct Request {
    pub ticker_symbol: Seq<char>,
    pub price_type: PriceType,
    pub aggregation_period: AggregationPeriod,
    pub start_date: Seq<char>,
    pub end_date: Seq<char>,
}

impl View for InputArgs {
    type V = Request;

    open spec fn view(&self) -> Request {
        Request {
            ticker_symbol: self.ticker_symbol@,
            price_type: self.price_type,
            aggregation_period: self.aggregation_period,
            start_date: self.start_date@,
            end_date: self.end_date@,
        }
    }
}

impl InputArgs {
    pub fn get_ticker_symbol(&self) -> (symbol: &str)
        ensures
            symbol@ == self.ticker_symbol@,
    {
        self.ticker_symbol.as_str()
    }

    pub fn get_price_type(&self) -> (price_type: PriceType)
        ensures
            price_type == self.price_type,
    {
        self.price_type
    }

    pub fn get_aggregation_period(&self) -> (period: AggregationPeriod)
        ensures
            period == self.aggregation_period,
    {
        self.aggregation_period
    }

    pub fn get_start_date(&self) -> (date: &str)
        ensures
            date@ == self.start_date@,
    {
        self.start_date.as_str()
    }

    pub fn get_end_date(&self) -> (date: &str)
        ensures
            date@ == self.end_date@,
    {
        self.end_date.as_str()
    }
}

/// The characters that separate words: space, tab, line feed, vertical tab,
/// form feed and carriage return.
pub open spec fn is_space(c: char) -> bool {
    c == ' ' || c == '\t' || c == '\n' || c == '\x0b' || c == '\x0c' || c == '\r'
}

/// The words of `s`: its maximal runs of characters that are no separators,
/// in order. Read from the left, a character that is no separator extends
/// the last word if the character before it belongs to a word, and begins a
/// new word otherwise.
pub open spec fn words(s: Seq<char>) -> Seq<Seq<char>>
    decreases s.len(),
{
    if s.len() == 0 {
        Seq::empty()
    } else {
        let before = words(s.drop_last());
        if is_space(s.last()) {
            before
        } else if s.len() >= 2 && !is_space(s[s.len() - 2]) {
            before.drop_last().push(before.last().push(s.last()))
        } else {
            before.push(seq![s.last()])
        }
    }
}

/// The price field that a word names.
pub open spec fn base_price_of(word: Seq<char>) -> Option<BasePriceType> {
    if word == "open"@ {
        Some(BasePriceType::Open)
    } else if word == "close"@ {
        Some(BasePriceType::Close)
    } else if word == "high"@ {
        Some(BasePriceType::High)
    } else if word == "low"@ {
        Some(BasePriceType::Low)
    } else {
        None
    }
}

/// The number of `|` in a word.
pub open spec fn bars(word: Seq<char>) -> nat
    decreases word.len(),
{
    if word.len() == 0 {
        0
    } else {
        bars(word.drop_last()) + (if word.last() == '|' {
            1nat
        } else {
            0nat
        })
    }
}

/// The index of the first `|` of a word that has one.
pub open spec fn first_bar(word: Seq<char>) -> int
    decreases word.len(),
{
    if word.len() == 0 {
        0
    } else if bars(word.drop_last()) > 0 {
        first_bar(word.drop_last())
    } else {
        word.len() - 1
    }
}

/// The price selector that a word spells.
///
/// A word without `|` names one field. A word with one `|` names two, the
/// fields before and after it. A word with more is refused as having the
/// wrong number of fields, which is one more than the number of its `|`.
pub open spec fn price_type_of(word: Seq<char>) -> Result<PriceType, InputError> {
    if bars(word) == 0 {
        match base_price_of(word) {
            Some(field) => Ok(PriceType::SinglePrice(field)),
            None => Err(InputError::InvalidPriceType),
        }
    } else if bars(word) == 1 {
        let at = first_bar(word);
        match (base_price_of(word.take(at)), base_price_of(word.skip(at + 1))) {
            (Some(first), Some(second)) => Ok(PriceType::DualPrice(first, second)),
            _ => Err(InputError::InvalidPriceType),
        }
    } else {
        Err(InputError::InsufficientArgsError((bars(word) + 1) as usize))
    }
}

/// The aggregation period that a word names.
pub open spec fn period_of(word: Seq<char>) -> Result<AggregationPeriod, InputError> {
    if word == "weekly"@ {
        Ok(AggregationPeriod::Weekly)
    } else {
        Err(InputError::InvalidAggregationPeriod)
    }
}

/// The aggregation function that an answer names.
pub open spec fn aggregation_type_of(answer: Seq<char>) -> Result<AggregationType, InputError> {
    if answer == "max"@ {
        Ok(AggregationType::Max)
    } else {
        Err(InputError::InvalidAggregationType)
    }
}

/// The delta function that an answer picks by its number.
pub open spec fn delta_function_of(answer: Seq<char>) -> Result<DeltaFunction, InputError> {
    if answer == "1"@ {
        Ok(DeltaFunction::PriceDelta)
    } else if answer == "2"@ {
        Ok(DeltaFunction::PriceDeltaPercentage)
    } else if answer == "3"@ {
        Ok(DeltaFunction::TrailingPriceDelta)
    } else if answer == "4"@ {
        Ok(DeltaFunction::TrailingPriceDeltaPercentage)
    } else {
        Err(InputError::InvalidAggregationType)
    }
}

/// What a line requests, or why it is no request.
///
/// The number of words is checked first, then the price selector, then the
/// aggregation period; the ticker symbol and the two dates are taken as
/// they stand.
pub open spec fn request_of(line: Seq<char>) -> Result<Request, InputError> {
    let found = words(line);
    if found.len() > 5 {
        Err(InputError::ExcessiveArgsError(found.len() as usize))
    } else if found.len() < 5 {
        Err(InputError::InsufficientArgsError(found.len() as usize))
    } else {
        match price_type_of(found[1]) {
            Err(e) => Err(e),
            Ok(price_type) => match period_of(found[2]) {
                Err(e) => Err(e),
                Ok(aggregation_period) => Ok(
                    Request {
                        ticker_symbol: found[0],
                        price_type,
                        aggregation_period,
                        start_date: found[3],
                        end_date: found[4],
                    },
                ),
            },
        }
    }
}

fn is_separator(c: char) -> (b: bool)
    ensures
        b == is_space(c),
{
    c == ' ' || c == '\t' || c == '\n' || c == '\x0b' || c == '\x0c' || c == '\r'
}

/// Range `k` holds word `k` of `line`; the ranges are not empty and each
/// begins after the end of the one before.
pub open spec fn ranges_hold_words(ranges: Seq<(usize, usize)>, line: Seq<char>) -> bool {
    &&& ranges.len() == words(line).len()
    &&& forall|k: int|
        0 <= k < ranges.len() ==> {
            &&& (#[trigger] ranges[k]).0 < ranges[k].1 <= line.len()
            &&& line.subrange(ranges[k].0 as int, ranges[k].1 as int) == words(line)[k]
        }
    &&& forall|k: int| 0 < k < ranges.len() ==> ranges[k - 1].1 < (#[trigger] ranges[k]).0
}

/// The places of the words of a line, as ranges of character indices.
fn word_ranges(line: &str) -> (ranges: Vec<(usize, usize)>)
    ensures
        ranges_hold_words(ranges@, line@),
{
    let n = line.unicode_len();
    let mut ranges: Vec<(usize, usize)> = Vec::new();
    let mut in_word = false;
    let mut i: usize = 0;
    assert(line@.take(0) =~= Seq::<char>::empty());
    while i < n
        invariant
            n == line@.len(),
            i <= n,
            in_word == (i > 0 && !is_space(line@[i - 1])),
            in_word ==> ranges@.len() > 0 && ranges@[ranges@.len() - 1].1 == i,
            !in_word && ranges@.len() > 0 ==> ranges@[ranges@.len() - 1].1 < i,
            forall|k: int| 0 < k < ranges@.len() ==> ranges@[k - 1].1 < (#[trigger] ranges@[k]).0,
            ranges@.len() == words(line@.take(i as int)).len(),
            forall|k: int|
                0 <= k < ranges@.len() ==> {
                    &&& (#[trigger] ranges@[k]).0 < ranges@[k].1 <= i
                    &&& line@.subrange(ranges@[k].0 as int, ranges@[k].1 as int) == words(
                        line@.take(i as int),
                    )[k]
                },
        decreases n - i,
    {
        let c = line.get_char(i);
        let ghost prefix = line@.take(i as int);
        let ghost longer = line@.take(i + 1);
        let ghost held = ranges@;
        proof {
            assert(longer.drop_last() =~= prefix);
            assert(longer.last() == c);
            if i > 0 {
                assert(longer[longer.len() - 2] == line@[i - 1]);
            }
        }
        if is_separator(c) {
            in_word = false;
        } else if in_word {
            let last = ranges.len() - 1;
            let begin = ranges[last].0;
            ranges.set(last, (begin, i + 1));
            proof {
                assert(line@.subrange(begin as int, i + 1) =~= line@.subrange(
                    begin as int,
                    i as int,
                ).push(c));
                assert forall|k: int| 0 <= k < ranges@.len() implies line@.subrange(
                    (#[trigger] ranges@[k]).0 as int,
                    ranges@[k].1 as int,
                ) == words(longer)[k] by {
                    if k < last {
                        assert(ranges@[k] == held[k]);
                    }
                }
            }
        } else {
            ranges.push((i, i + 1));
            in_word = true;
            proof {
                assert(line@.subrange(i as int, i + 1) =~= seq![c]);
                assert forall|k: int| 0 <= k < ranges@.len() implies line@.subrange(
                    (#[trigger] ranges@[k]).0 as int,
                    ranges@[k].1 as int,
                ) == words(longer)[k] by {
                    if k < held.len() {
                        assert(ranges@[k] == held[k]);
                    }
                }
            }
        }
        i += 1;
    }
    assert(line@.take(n as int) =~= line@);
    ranges
}

/// Whether the characters `from..to` of `line` spell `word`.
fn spells(line: &str, from: usize, to: usize, word: &str) -> (same: bool)
    requires
        from <= to <= line@.len(),
    ensures
        same == (line@.subrange(from as int, to as int) == word@),
{
    let m = word.unicode_len();
    let ghost part = line@.subrange(from as int, to as int);
    if to - from != m {
        return false;
    }
    let mut k: usize = 0;
    while k < m
        invariant
            from <= to <= line@.len(),
            m == word@.len(),
            to - from == m,
            k <= m,
            part == line@.subrange(from as int, to as int),
            forall|j: int| 0 <= j < k ==> part[j] == word@[j],
        decreases m - k,
    {
        if line.get_char(from + k) != word.get_char(k) {
            assert(part[k as int] != word@[k as int]);
            return false;
        }
        k += 1;
    }
    assert(part =~= word@);
    true
}

/// The price field that the characters `from..to` of `line` name.
fn base_price(line: &str, from: usize, to: usize) -> (field: Option<BasePriceType>)
    requires
        from <= to <= line@.len(),
    ensures
        field == base_price_of(line@.subrange(from as int, to as int)),
{
    if spells(line, from, to, "open") {
        Some(BasePriceType::Open)
    } else if spells(line, from, to, "close") {
        Some(BasePriceType::Close)
    } else if spells(line, from, to, "high") {
        Some(BasePriceType::High)
    } else if spells(line, from, to, "low") {
        Some(BasePriceType::Low)
    } else {
        None
    }
}

/// The price selector that the characters `from..to` of `line` spell.
fn price_type(line: &str, from: usize, to: usize) -> (result: Result<PriceType, InputError>)
    requires
        0 < from <= to <= line@.len(),
    ensures
        result == price_type_of(line@.subrange(from as int, to as int)),
{
    let ghost word = line@.subrange(from as int, to as int);
    let mut count: usize = 0;
    let mut at: usize = from;
    let mut i: usize = from;
    assert(word.take(0) =~= Seq::<char>::empty());
    while i < to
        invariant
            from <= i <= to <= line@.len(),
            word == line@.subrange(from as int, to as int),
            count == bars(word.take(i - from)),
            count <= i - from,
            count > 0 ==> from <= at < i && at - from == first_bar(word.take(i - from)),
        decreases to - i,
    {
        let ghost shorter = word.take(i - from);
        let ghost longer = word.take(i - from + 1);
        proof {
            assert(longer.drop_last() =~= shorter);
            assert(longer.last() == line@[i as int]);
        }
        if line.get_char(i) == '|' {
            if count == 0 {
                at = i;
            }
            count += 1;
        }
        i += 1;
    }
    assert(word.take(to - from) =~= word);
    if count == 0 {
        match base_price(line, from, to) {
            Some(field) => Ok(PriceType::SinglePrice(field)),
            None => Err(InputError::InvalidPriceType),
        }
    } else if count == 1 {
        proof {
            assert(word.take(at - from) =~= line@.subrange(from as int, at as int));
            assert(word.skip(at - from + 1) =~= line@.subrange(at + 1, to as int));
        }
        match (base_price(line, from, at), base_price(line, at + 1, to)) {
            (Some(first), Some(second)) => Ok(PriceType::DualPrice(first, second)),
            _ => Err(InputError::InvalidPriceType),
        }
    } else {
        Err(InputError::InsufficientArgsError(count + 1))
    }
}

/// Reads a request from one line of input.
///
/// The line holds five words: ticker symbol, price selector, aggregation
/// period, start date, end date. The selector is one of `open`, `close`,
/// `high`, `low`, or two of them joined by `|`; the period is `weekly`.
pub fn parse_input(line: &str) -> (result: Result<InputArgs, InputError>)
    ensures
        match result {
            Ok(args) => request_of(line@) == Ok::<Request, InputError>(args@),
            Err(e) => request_of(line@) == Err::<Request, InputError>(e),
        },
{
    let ranges = word_ranges(line);
    if ranges.len() > 5 {
        return Err(InputError::ExcessiveArgsError(ranges.len()));
    }
    if ranges.len() < 5 {
        return Err(InputError::InsufficientArgsError(ranges.len()));
    }
    assert(ranges@[0].1 < ranges@[1].0);
    let price_type = match price_type(line, ranges[1].0, ranges[1].1) {
        Ok(price_type) => price_type,
        Err(e) => {
            return Err(e);
        },
    };
    if !spells(line, ranges[2].0, ranges[2].1, "weekly") {
        return Err(InputError::InvalidAggregationPeriod);
    }
    let ticker_symbol = line.substring_char(ranges[0].0, ranges[0].1).to_owned();
    let start_date = line.substring_char(ranges[3].0, ranges[3].1).to_owned();
    let end_date = line.substring_char(ranges[4].0, ranges[4].1).to_owned();
    Ok(
        InputArgs {
            ticker_symbol,
            price_type,
            aggregation_period: AggregationPeriod::Weekly,
            start_date,
            end_date,
        },
    )
}

/// Reads the name of an aggregation function: `max`.
pub fn parse_aggregation_type(answer: &str) -> (result: Result<AggregationType, InputError>)
    ensures
        result == aggregation_type_of(answer@),
{
    let n = answer.unicode_len();
    assert(answer@.subrange(0, n as int) =~= answer@);
    if spells(answer, 0, n, "max") {
        Ok(AggregationType::Max)
    } else {
        Err(InputError::InvalidAggregationType)
    }
}

/// Reads the choice of a delta function, which is made by its number:
/// `1` to `4`, in the order of the variants of `DeltaFunction`.
pub fn parse_delta_function(answer: &str) -> (result: Result<DeltaFunction, InputError>)
    ensures
        result == delta_function_of(answer@),
{
    let n = answer.unicode_len();
    assert(answer@.subrange(0, n as int) =~= answer@);
    if spells(answer, 0, n, "1") {
        Ok(DeltaFunction::PriceDelta)
    } else if spells(answer, 0, n, "2") {
        Ok(DeltaFunction::PriceDeltaPercentage)
    } else if spells(answer, 0, n, "3") {
        Ok(DeltaFunction::TrailingPriceDelta)
    } else if spells(answer, 0, n, "4") {
        Ok(DeltaFunction::TrailingPriceDeltaPercentage)
    } else {
        Err(InputError::InvalidAggregationType)
    }
}

/// A line without the line ending that reading it from a terminal leaves:
/// one trailing line feed is dropped, and after it one trailing carriage
/// return.
pub open spec fn without_line_ending(line: Seq<char>) -> Seq<char> {
    let cut = if line.len() > 0 && line.last() == '\n' {
        line.drop_last()
    } else {
        line
    };
    if cut.len() > 0 && cut.last() == '\r' {
        cut.drop_last()
    } else {
        cut
    }
}

/// Drops the line ending of a line that was read.
pub fn strip_line_ending(line: &str) -> (stripped: &str)
    ensures
        stripped@ == without_line_ending(line@),
{
    let mut end = line.unicode_len();
    assert(line@.subrange(0, end as int) =~= line@);
    if end > 0 && line.get_char(end - 1) == '\n' {
        end -= 1;
        assert(line@.subrange(0, end as int) =~= line@.drop_last());
    }
    if end > 0 && line.get_char(end - 1) == '\r' {
        assert(line@.subrange(0, end - 1) =~= line@.subrange(0, end as int).drop_last());
        end -= 1;
    }
    line.substring_char(0, end)
}

} // verus!
