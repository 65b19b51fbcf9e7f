//! Timestamps: seconds since the epoch checked against the calendar range of
//! `chrono`, and their UTC text.
use vstd::prelude::*;
use crate::config::opt_view;

verus! {

/// What `chrono::DateTime::<Utc>::from_timestamp(secs, nanos)` gives, read
/// back as whole seconds with `timestamp()`.
pub uninterp spec fn utc_seconds_spec(secs: i64, nanos: u32) -> Option<i64>;

/// What a UTC date-time of `secs` seconds since the epoch renders as with the
/// `chrono` format string `pattern`, or `None` when `chrono` has no such
/// date-time.
pub uninterp spec fn utc_text(secs: i64, pattern: Seq<char>) -> Option<Seq<char>>;

/// The format strings the browser renders dates with.
pub open spec fn valid_date_pattern(p: Seq<char>) -> bool {
    ||| p == "%Y-%m-%d"@
    ||| p == "%Y-%m-%d %H:%M"@
    ||| p == "%Y-%m-%d %H:%M:%S"@
}

/// Calls `chrono::DateTime::from_timestamp(secs, nanos)` and reads the result
/// back with `timestamp()`. `chrono` documents that the two round-trip, so a
/// result, when there is one, is `secs`; which inputs are out of range is left
/// to the name.
#[verifier::external_body]
pub(crate) fn utc_seconds(secs: i64, nanos: u32) -> (r: Option<i64>)
    ensures
        r == utc_seconds_spec(secs, nanos),
        r is Some ==> r == Some(secs),
{
    match chrono::DateTime::from_timestamp(secs, nanos) {
        Some(d) => Some(d.timestamp()),
        None => None,
    }
}

/// Calls `chrono::DateTime::from_timestamp(secs, 0)` and renders the
/// date-time with `format(pattern)`; the contract names the text.
#[verifier::external_body]
pub(crate) fn format_utc(secs: i64, pattern: &str) -> (r: Option<String>)
    requires
        valid_date_pattern(pattern@),
    ensures
        opt_view(r) == utc_text(secs, pattern@),
{
    match chrono::DateTime::from_timestamp(secs, 0) {
        Some(d) => Some(d.format(pattern).to_string()),
        None => None,
    }
}

/// Seconds of an optional (seconds, nanoseconds) pair that `chrono` accepts.
pub open spec fn stamp_spec(t: Option<(i64, u32)>) -> Option<i64> {
    match t {
        Some(p) => utc_seconds_spec(p.0, p.1),
        None => None,
    }
}

/// The seconds of `t`, when it is a date-time `chrono` can hold.
pub fn stamp(t: Option<(i64, u32)>) -> (r: Option<i64>)
    ensures
        r == stamp_spec(t),
{
    match t {
        Some(p) => utc_seconds(p.0, p.1),
        None => None,
    }
}

} // verus!
