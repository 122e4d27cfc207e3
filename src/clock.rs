//! Instants as whole milliseconds since the Unix epoch, UTC, and the
//! calendar date of an instant, which chrono computes.

use vstd::prelude::*;
use chrono::{DateTime, Utc};

verus! {

/// The latest instant the library keeps: 9999-12-31T23:59:59.999Z.
pub const MAX_TIME: i64 = 253402300799999;

/// An instant that an interval may hold: from the epoch to the end of year
/// 9999.
pub open spec fn valid_time(t: i64) -> bool {
    0 <= t <= MAX_TIME
}

/// Whether `t` is an instant that an interval may hold.
pub fn is_valid_time(t: i64) -> (r: bool)
    ensures
        r == valid_time(t),
{
    0 <= t && t <= MAX_TIME
}

/// The UTC calendar date of an instant, as `YYYY-MM-DD`.
pub uninterp spec fn ymd_of(t: int) -> Seq<char>;

/// Relies on chrono's `DateTime::from_timestamp_millis`, which is `Some` for
/// every instant from the epoch through year 9999, and on its `format` with
/// `%Y-%m-%d`, the date of that instant in UTC.
#[verifier::external_body]
pub(crate) fn date_of(t: i64) -> (r: Option<String>)
    requires
        valid_time(t),
    ensures
        r is Some,
        r.unwrap()@ == ymd_of(t as int),
{
    match DateTime::<Utc>::from_timestamp_millis(t) {
        Some(d) => Some(d.format("%Y-%m-%d").to_string()),
        None => None,
    }
}

} // verus!
