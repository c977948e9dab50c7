//! The current time, for the timestamps of new entries.

use vstd::prelude::*;
use crate::datetime::DateTime;

verus! {

/// Reads the clock: year, month, day, hour, minute and second in UTC.
///
/// Calls `time::OffsetDateTime::now_utc` and its six accessors. The contract
/// claims the ranges that the `time` crate documents for them, and nothing
/// about which moment comes back.
#[verifier::external_body]
pub(crate) fn now_utc() -> (t: (i32, u8, u8, u8, u8, u8))
    ensures
        1 <= t.1 <= 12,
        1 <= t.2 <= 31,
        t.3 < 24,
        t.4 < 60,
        t.5 < 60,
{
    let now = time::OffsetDateTime::now_utc();
    (now.year(), u8::from(now.month()), now.day(), now.hour(), now.minute(), now.second())
}

/// The current time as a timestamp for a header. A clock that stands outside
/// the years 1980 to 2107 gives the epoch.
pub fn now() -> (t: DateTime)
    ensures
        t.plausible(),
        t.representable(),
{
    let (year, month, day, hour, minute, second) = now_utc();
    DateTime::from_calendar(year, month, day, hour, minute, second)
}

} // verus!
