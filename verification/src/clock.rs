//! Wall-clock time and calendar dates, in milliseconds since the Unix epoch (UTC).
use vstd::prelude::*;

verus! {

/// Milliseconds in one day.
pub const MS_PER_DAY: i64 = 86_400_000;

/// The UTC calendar day (days since 1970-01-01) that a timestamp falls on.
pub open spec fn day_index(ms: int) -> int {
    ms / (MS_PER_DAY as int)
}

/// The UTC calendar day of a timestamp (`DateTime::date_naive`, counted in days since the epoch).
pub fn day_of(ms: i64) -> (d: i64)
    ensures
        d == day_index(ms as int),
{
    let q = ms / MS_PER_DAY;
    let r = ms % MS_PER_DAY;
    if r < 0 {
        q - 1
    } else {
        q
    }
}

/// The current time (`chrono::Utc::now`), in milliseconds since the Unix epoch.
///
/// chrono fails on a system clock set before 1970, so the value is never negative;
/// nothing else is claimed of it.
#[verifier::external_body]
pub(crate) fn now_millis() -> (ms: i64)
    ensures
        ms >= 0,
{
    chrono::Utc::now().timestamp_millis()
}

/// The ISO `YYYY-MM-DD` text of the UTC date of a timestamp.
pub uninterp spec fn utc_date_text(ms: i64) -> Seq<char>;

/// The UTC date of a timestamp as `YYYY-MM-DD` (`chrono::NaiveDate`'s `to_string`),
/// or empty text when chrono cannot represent the timestamp.
#[verifier::external_body]
pub(crate) fn date_text(ms: i64) -> (s: String)
    ensures
        s@ == utc_date_text(ms),
{
    match chrono::DateTime::from_timestamp_millis(ms) {
        Some(dt) => dt.date_naive().to_string(),
        None => String::new(),
    }
}

/// The text chrono's `Display` gives a UTC timestamp (`YYYY-MM-DD HH:MM:SS UTC`, with a
/// fraction of a second where there is one).
pub uninterp spec fn utc_datetime_text(ms: i64) -> Seq<char>;

/// A UTC timestamp as chrono displays it, or empty text when chrono cannot represent it.
#[verifier::external_body]
pub(crate) fn datetime_text(ms: i64) -> (s: String)
    ensures
        s@ == utc_datetime_text(ms),
{
    match chrono::DateTime::from_timestamp_millis(ms) {
        Some(dt) => dt.to_string(),
        None => String::new(),
    }
}

} // verus!
