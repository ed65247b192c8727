//! Instants between their wire form (UNIX seconds and signed
//! nanoseconds, as a protobuf timestamp carries them) and their stored
//! form (a UTC date-time, held as its UNIX seconds and the nanoseconds
//! beyond them, up to two seconds' worth for a leap second).

use vstd::prelude::*;
use chrono::TimeZone;

verus! {

/// The first second chrono represents: -262143-01-01T00:00:00Z.
pub const FIRST_UTC_SECOND: i64 = -8_334_601_228_800;

/// The last second chrono represents: +262142-12-31T23:59:59Z.
pub const LAST_UTC_SECOND: i64 = 8_210_266_876_799;

/// Whether chrono represents the UTC instant `secs` + `nsecs`: the second
/// lies in chrono's date range and the nanoseconds stay below two
/// seconds, beyond one only in the 59th second of a minute (a leap
/// second).
pub open spec fn utc_representable(secs: i64, nsecs: u32) -> bool {
    &&& FIRST_UTC_SECOND <= secs <= LAST_UTC_SECOND
    &&& nsecs < 2_000_000_000
    &&& (nsecs >= 1_000_000_000 ==> secs % 60 == 59)
}

/// `chrono::Utc.timestamp_opt(secs, nsecs).single()`, read back as
/// `(timestamp(), timestamp_subsec_nanos())`: the instant itself when
/// chrono represents it, `None` otherwise (chrono's `from_timestamp`:
/// the day must lie between `NaiveDate::MIN` and `NaiveDate::MAX`, the
/// time of day from `from_num_seconds_from_midnight_opt`).
#[verifier::external_body]
fn utc_instant(secs: i64, nsecs: u32) -> (r: Option<(i64, u32)>)
    ensures
        r == (if utc_representable(secs, nsecs) {
            Some((secs, nsecs))
        } else {
            None
        }),
{
    chrono::Utc.timestamp_opt(secs, nsecs).single().map(|d| (d.timestamp(), d.timestamp_subsec_nanos()))
}

/// The nanoseconds a wire timestamp is read with: negative ones count as
/// zero.
pub open spec fn wire_nanos(nanos: i32) -> u32 {
    if nanos < 0 {
        0
    } else {
        nanos as u32
    }
}

/// The stored instant of a wire timestamp, when chrono represents it.
pub open spec fn stored_instant(seconds: i64, nanos: i32) -> Option<(i64, u32)> {
    if utc_representable(seconds, wire_nanos(nanos)) {
        Some((seconds, wire_nanos(nanos)))
    } else {
        None
    }
}

/// A wire timestamp as a stored instant (negative nanoseconds read as
/// zero); `None` when chrono cannot represent it.
pub fn ts_to_naive(seconds: i64, nanos: i32) -> (r: Option<(i64, u32)>)
    ensures
        r == stored_instant(seconds, nanos),
{
    let n: u32 = if nanos < 0 {
        0
    } else {
        nanos as u32
    };
    utc_instant(seconds, n)
}

/// A stored instant as a wire timestamp.
pub fn naive_to_ts(value: (i64, u32)) -> (r: Option<(i64, i32)>)
    ensures
        r == Some((value.0, value.1 as i32)),
{
    Some((value.0, value.1 as i32))
}

/// The two conversions undo each other: a stored instant read back from
/// its wire form is itself, and a wire timestamp with non-negative
/// nanoseconds that chrono represents comes back unchanged.
pub proof fn lemma_instant_roundtrip(secs: i64, nsecs: u32, seconds: i64, nanos: i32)
    ensures
        utc_representable(secs, nsecs) ==> stored_instant(
            secs,
            nsecs as i32,
        ) == Some((secs, nsecs)),
        nanos >= 0 ==> (stored_instant(seconds, nanos) matches Some(i) ==> (i.0, i.1 as i32) == (
            seconds,
            nanos,
        )),
{
}

} // verus!
