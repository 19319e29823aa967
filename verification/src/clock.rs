//! Wall-clock readings, behind a trusted boundary.

use vstd::prelude::*;

verus! {

/// Relies on chrono's `Utc::now` and `timestamp`: seconds since the Unix
/// epoch, by the machine's clock. Nothing holds of the value itself: wall
/// clocks move freely.
#[verifier::external_body]
pub fn now_unix_seconds() -> (r: i64)
{
    chrono::Utc::now().timestamp()
}

/// Relies on chrono's `Utc::now` and `timestamp_millis`: milliseconds
/// since the Unix epoch, by the machine's clock.
#[verifier::external_body]
pub fn now_unix_millis() -> (r: i64)
{
    chrono::Utc::now().timestamp_millis()
}

/// The milliseconds from `start` to `end`, zero when the clock ran
/// backwards or `start` is itself negative.
pub fn elapsed_ms(start: i64, end: i64) -> (r: u64)
    ensures
        start >= 0 && end >= start ==> r == end - start,
        !(start >= 0 && end >= start) ==> r == 0,
{
    if start >= 0 && end >= start {
        (end - start) as u64
    } else {
        0
    }
}

} // verus!
