//! The wall clock, read through `chrono`.

use vstd::prelude::*;

verus! {

/// Reads the wall clock with `std::time::SystemTime::now`, converts the
/// instant with chrono's `From<SystemTime>` for `DateTime<Utc>` and takes its
/// `DateTime::timestamp_millis`: the milliseconds since the Unix epoch,
/// negative for a clock that stands before it. Nothing is claimed of the
/// value: it changes from call to call. The conversion gives up only on an
/// instant outside the years that chrono can hold, some 262,000 on either
/// side of the epoch.
#[verifier::external_body]
pub(crate) fn now_millis() -> (millis: i64) {
    chrono::DateTime::<chrono::Utc>::from(std::time::SystemTime::now()).timestamp_millis()
}

} // verus!
