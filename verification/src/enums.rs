//! Small enumerations that describe a series and what is asked of it.
use vstd::prelude::*;

verus! {

/// The currency that prices are quoted in.
#[derive(Debug, Clone, Copy, PartialEq, Eq, Structural)]
pub enum Currency {
    USD,
    SGD,
}

/// A pair of price fields whose difference is of interest.
#[derive(Debug, Clone, Copy, PartialEq, Eq, Structural)]
pub enum DeltaType {
    OpenLow,
    HighOpen,
    HighPrevClose,
    PrevCloseLow,
}

/// A series of a grouped record.
#[derive(Debug, Clone, Copy, PartialEq, Eq, Structural)]
pub enum MetricType {
    HighPrice,
    LowPrice,
    OpenPrice,
    ClosePrice,
    AdjClosePrice,
    Volume,
    PercentageDelta(DeltaType),
    PriceDelta(DeltaType),
}

/// Where the data comes from.
#[derive(Debug, Clone, Copy, PartialEq, Eq, Structural)]
pub enum DataProvider {
    YahooFinance,
}

} // verus!
