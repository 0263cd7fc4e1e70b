use vstd::prelude::*;

use crate::Timestamp;

verus! {

/// Relies on `chrono::Utc::now` and `chrono::DateTime::timestamp_millis`:
/// the current wall-clock time as milliseconds since the Unix epoch.
/// Nothing can be promised of a clock reading, so this states nothing.
#[verifier::external_body]
pub(crate) fn now_timestamp() -> Timestamp {
    chrono::Utc::now().timestamp_millis()
}

} // verus!
