//! Calendar rendering of Unix timestamps, delegated to chrono.
//!
//! The ledger buckets trades by calendar day and the exporter prints full
//! timestamps. Both renderings are deterministic functions of the timestamp;
//! they are named here and produced by chrono behind trusted wrappers.
use vstd::prelude::*;

verus! {

/// Latest timestamp the library renders: 9999-12-31 23:59:59 UTC. Keeping
/// timestamps in `[0, MAX_TIMESTAMP]` keeps chrono's conversion total and the
/// year at four digits.
pub const MAX_TIMESTAMP: i64 = 253402300799;

/// The day number a timestamp falls in (days since the epoch).
pub open spec fn day_of(ts: int) -> int
    recommends
        ts >= 0,
{
    ts / 86400
}

/// The `YYYY-MM-DD` text of day number `day`, as chrono renders it.
pub uninterp spec fn day_key_of(day: int) -> Seq<char>;

/// The `YYYY-MM-DD HH:MM:SS` text of timestamp `ts`, as chrono renders it.
pub uninterp spec fn datetime_text_of(ts: int) -> Seq<char>;

/// Relies on chrono's `DateTime::from_timestamp` and `%Y-%m-%d` formatting:
/// every timestamp in `[0, MAX_TIMESTAMP]` converts, and the rendered date
/// depends only on the day number `ts / 86400`.
#[verifier::external_body]
pub(crate) fn format_day_key(ts: i64) -> (r: String)
    requires
        0 <= ts <= MAX_TIMESTAMP,
    ensures
        r@ == day_key_of(day_of(ts as int)),
{
    match chrono::DateTime::from_timestamp(ts, 0) {
        Some(dt) => dt.format("%Y-%m-%d").to_string(),
        None => String::new(),
    }
}

/// Relies on chrono's `DateTime::from_timestamp` and `%Y-%m-%d %H:%M:%S`
/// formatting: every timestamp in `[0, MAX_TIMESTAMP]` converts, and the
/// rendered text depends on the timestamp alone.
#[verifier::external_body]
pub(crate) fn format_datetime(ts: i64) -> (r: String)
    requires
        0 <= ts <= MAX_TIMESTAMP,
    ensures
        r@ == datetime_text_of(ts as int),
{
    match chrono::DateTime::from_timestamp(ts, 0) {
        Some(dt) => dt.format("%Y-%m-%d %H:%M:%S").to_string(),
        None => String::new(),
    }
}

} // verus!
