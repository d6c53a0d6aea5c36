pub mod decimal;
pub mod event;
pub mod main_loop;
pub mod manager;
pub mod mounts;
pub mod round_duration;
pub mod schedule;
pub mod settings;
pub mod tooltip;

use vstd::prelude::*;

verus! {

/// Cooldown applied after a failed run, overriding the job's own interval
/// until the next attempt succeeds.
pub const RETRY_INTERVAL_MS: i64 = 3_600_000;

/// Minimum spacing between two reminder notifications, shared by all jobs.
pub const REMINDER_INTERVAL_MS: i64 = 14_400_000;

/// Upper bound on the timestamps and durations the scheduler works with,
/// in milliseconds: roughly two thousand years.  Keeping every configured
/// value under this bound keeps every sum the schedule computes inside
/// `i64` without case splits.
pub const MAX_TIME_MS: i64 = 0x4000_0000_0000;

/// A timestamp in milliseconds since the epoch that schedule arithmetic
/// can handle.
pub open spec fn valid_ts(t: int) -> bool {
    0 <= t <= MAX_TIME_MS
}

/// A duration in milliseconds that schedule arithmetic can handle.
pub open spec fn valid_dur(d: int) -> bool {
    0 <= d <= MAX_TIME_MS
}

/// An optional machine timestamp, widened to the mathematical integers so
/// that contracts can speak about it without overflow side conditions.
pub open spec fn opt_int(o: Option<i64>) -> Option<int> {
    match o {
        Some(v) => Some(v as int),
        None => None,
    }
}

} // verus!
