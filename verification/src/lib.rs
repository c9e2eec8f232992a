//! A real-time server metrics aggregator.
//!
//! Latency samples are accumulated into a fixed ring of sixty one-second
//! buckets ([`ring::WindowRing`]); a periodic tick derives throughput and
//! latency figures over the trailing window, merges in host resource
//! readings, and appends a timestamped snapshot to a retention-bounded
//! store ([`aggregator::SnapshotAggregator`]).
//!
//! All times are in microseconds. Latency figures are fixed-point: average
//! update time in microseconds, update rate in thousandths of an update per
//! second.

use vstd::prelude::*;

pub mod aggregator;
pub mod ring;

verus! {

/// Number of one-second buckets in the ring; also the length, in seconds,
/// of the trailing window over which rates are averaged.
pub const WINDOW_COUNT: u64 = 60;

/// Microseconds per second: timestamps are in microseconds.
pub const MICROS_PER_SECOND: u64 = 1_000_000;

/// Length of the trailing window in microseconds.
pub const WINDOW_SPAN_US: u64 = WINDOW_COUNT * MICROS_PER_SECOND;

/// Age, in microseconds, beyond which stored snapshots are discarded.
pub const RETENTION_US: u64 = 60_000_000;

/// Upper bound kept on the accumulated latency of a single bucket, so that
/// the sum over the whole ring always fits in a `u64`
/// (`WINDOW_COUNT * BUCKET_TOTAL_MAX < u64::MAX`).
pub const BUCKET_TOTAL_MAX: u64 = 0x0400_0000_0000_0000;

} // verus!
