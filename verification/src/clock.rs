//! Wall-clock readings, backed by the chrono crate. Timestamps are
//! milliseconds since the Unix epoch.

use vstd::prelude::*;

verus! {

/// Relies on chrono::Utc::now and DateTime::timestamp_millis: the current
/// clock reading. Nothing is promised of the value.
#[verifier::external_body]
pub fn current_time_millis() -> i64 {
    chrono::Utc::now().timestamp_millis()
}

/// Relies on chrono::Utc::now with the Datelike accessors: the current UTC
/// calendar date. chrono documents month in 1..=12 and day in 1..=31.
#[verifier::external_body]
pub fn today_utc() -> (r: (i64, u32, u32))
    ensures
        1 <= r.1 <= 12,
        1 <= r.2 <= 31,
{
    let now = chrono::Utc::now();
    (
        chrono::Datelike::year(&now) as i64,
        chrono::Datelike::month(&now),
        chrono::Datelike::day(&now),
    )
}

/// The "%Y-%m-%dT%H:%M:%SZ" rendering of a timestamp; it depends on the
/// timestamp alone (empty for one outside chrono's representable range).
pub uninterp spec fn iso_datetime(millis: i64) -> Seq<char>;

/// Relies on chrono::DateTime::from_timestamp_millis and its formatting:
/// rendering a timestamp is a pure function of the timestamp.
#[verifier::external_body]
pub fn format_timestamp(millis: i64) -> (r: String)
    ensures
        r@ == iso_datetime(millis),
{
    match chrono::DateTime::from_timestamp_millis(millis) {
        Some(dt) => dt.format("%Y-%m-%dT%H:%M:%SZ").to_string(),
        None => String::new(),
    }
}

} // verus!
