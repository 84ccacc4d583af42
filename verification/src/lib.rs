//! Calendar-windowed statistics over daily price series.
//!
//! Observations are pairs of a timestamp (seconds since the Unix epoch, UTC)
//! and an integer value in a unit of the caller's choosing. The crate groups
//! a series into calendar-aligned buckets, reduces each bucket to a scalar,
//! computes deltas between observations, and offers the order statistics
//! (sorting, a binary heap, interpolated percentiles) behind rank-based
//! summaries.
pub mod aggregation;
pub mod datasets;
pub mod deltas;
pub mod enums;
pub mod errors;
pub mod grouping;
pub mod heap;
pub mod inputs;
pub mod numeric;
pub mod records;
pub mod sorting;
