//! The two places the core asks the environment for time: the current
//! instant, and a compact calendar rendering of an instant for export
//! file names.
use vstd::prelude::*;

verus! {

/// Largest instant (milliseconds since the epoch, 9999-12-31T23:59:59.999Z)
/// that `format_compact_stamp` accepts.
pub const MAX_STAMP_MILLIS: i64 = 253402300799999;

/// Relies on chrono::Utc::now: the current UTC instant as milliseconds
/// since the epoch. Nothing is assumed of the value; callers must hold
/// for every outcome.
#[verifier::external_body]
pub(crate) fn now_millis() -> i64 {
    chrono::Utc::now().timestamp_millis()
}

/// The `YYYYMMDD_HHMMSS` rendering of a UTC instant given as milliseconds
/// since the epoch: a fixed function of the instant alone.
pub uninterp spec fn compact_stamp(ms: int) -> Seq<char>;

/// Relies on chrono::DateTime::from_timestamp_millis (defined for every
/// instant admitted here) and chrono's `%Y%m%d_%H%M%S` formatter, whose
/// output in UTC depends on the instant alone.
#[verifier::external_body]
pub(crate) fn format_compact_stamp(ms: i64) -> (r: String)
    requires
        0 <= ms <= MAX_STAMP_MILLIS,
    ensures
        r@ == compact_stamp(ms as int),
{
    let dt = chrono::DateTime::<chrono::Utc>::from_timestamp_millis(ms).unwrap();
    dt.format("%Y%m%d_%H%M%S").to_string()
}

} // verus!
