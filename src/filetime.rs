//! Windows FILETIME values (100-nanosecond ticks since 1601-01-01 UTC)
//! turned into Unix seconds and naive date-times.
use vstd::prelude::*;
use chrono::NaiveDateTime;

verus! {

/// FILETIME ticks in one second.
pub const TICKS_PER_SECOND: i64 = 10_000_000;

/// Seconds from 1601-01-01 to 1970-01-01.
pub const EPOCH_DELTA_SECS: i64 = 11_644_473_600;

/// A fixed seven-hour shift applied after the epoch change.
pub const LOCAL_OFFSET_SECS: i64 = 25_200;

/// Unix seconds for FILETIME `t`: whole seconds (a negative count reads as
/// zero), less the epoch delta, less the fixed offset, each step stopping at
/// zero.
pub open spec fn filetime_secs(t: i64) -> int {
    let s: int = if t <= 0 {
        0
    } else {
        t / 10_000_000
    };
    let after_epoch: int = if s > 11_644_473_600 {
        s - 11_644_473_600
    } else {
        0
    };
    if after_epoch > 25_200 {
        after_epoch - 25_200
    } else {
        0
    }
}

/// Converts a FILETIME tick count to seconds since the Unix epoch.
pub fn filetime_to_unix_secs(t: i64) -> (r: i64)
    ensures
        r == filetime_secs(t),
        0 <= r <= 1_000_000_000_000,
{
    let s: i64 = if t <= 0 {
        0
    } else {
        t / TICKS_PER_SECOND
    };
    let after_epoch: i64 = if s > EPOCH_DELTA_SECS {
        s - EPOCH_DELTA_SECS
    } else {
        0
    };
    if after_epoch > LOCAL_OFFSET_SECS {
        after_epoch - LOCAL_OFFSET_SECS
    } else {
        0
    }
}

#[verifier::external_type_specification]
#[verifier::external_body]
pub struct ExNaiveDateTime(NaiveDateTime);

/// The naive date-time `secs` seconds after 1970-01-01 00:00:00.
pub uninterp spec fn naive_at(secs: int) -> NaiveDateTime;

/// Relies on chrono's `NaiveDateTime::from_timestamp(secs, 0)`: the date-time
/// `secs` seconds after the Unix epoch, a function of `secs` alone. It panics
/// beyond about 262,000 years, far outside the admitted range.
#[verifier::external_body]
#[allow(deprecated)]
pub(crate) fn naive_from_unix_secs(secs: i64) -> (r: NaiveDateTime)
    requires
        0 <= secs <= 1_000_000_000_000,
    ensures
        r == naive_at(secs as int),
{
    NaiveDateTime::from_timestamp(secs, 0)
}

} // verus!
