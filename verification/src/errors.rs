//! Error types shared by the whole crate.
//!
//! The variants carry plain data rather than formatted text, so that a
//! contract can say exactly which error a call returns. Rendering an error
//! for display is left to the caller.
use vstd::prelude::*;

verus! {

/// Failures while obtaining or assembling the source data.
#[derive(Debug, Clone, PartialEq, Eq)]
pub enum SourceDataError {
    /// The data provider could not be reached.
    ConnectionError(String),
    /// The provider's answer could not be read.
    ParseError(String),
    /// A record lacks a field; the payload names the field.
    MissingDataError(String),
}

/// Failures while setting up a request for data.
#[derive(Debug, Clone, PartialEq, Eq)]
pub enum InitializationError {
    TickerInfoInitializationError(String),
}

/// The two ways in which a bucket width can be unusable for a series.
#[derive(Debug, Clone, Copy, PartialEq, Eq, Structural)]
pub enum WidthMismatch {
    /// The width is narrower than the interval between the first two observations.
    Upsampling,
    /// The width is wider than the span that the observations cover.
    ExceedsSpan,
}

/// Failures of grouping, reducing and order statistics.
#[derive(Debug, Clone, Copy, PartialEq, Eq, Structural)]
pub enum AggregationError {
    /// Two parallel arrays differ in length; the payload holds both lengths,
    /// in the order of the arguments.
    InconsistentLengthError(usize, usize),
    /// The requested bucket width does not fit the series.
    BucketWidthError(WidthMismatch),
    /// A bucket without observations was handed to a reducer that needs one.
    EmptyBucketError,
    /// An order statistic was asked of an empty array.
    EmptyQueueError,
    /// A value does not fit the representation it has to be converted to.
    NumericConversionError,
    /// A percentile below zero was requested.
    NegativePercentileError,
    /// The series asked for has not been computed for this record.
    MetricNotCalculated,
    /// The series asked for is not offered.
    MetricNotImplemented,
}

/// Failures while reading the user's request.
#[derive(Debug, Clone, Copy, PartialEq, Eq, Structural)]
pub enum InputError {
    /// More arguments than expected; the payload is the number found.
    ExcessiveArgsError(usize),
    /// Not the expected number of arguments, or of price fields in a
    /// selector of two; the payload is the number found.
    InsufficientArgsError(usize),
    /// The aggregation function is not one that is offered.
    InvalidAggregationType,
    /// The price selector names a field that is not offered.
    InvalidPriceType,
    /// The aggregation period is not one that is offered.
    InvalidAggregationPeriod,
    /// Reading the request failed.
    IOError,
}

} // verus!
