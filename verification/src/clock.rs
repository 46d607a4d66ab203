//! The time.

use vstd::prelude::*;

verus! {

/// The system clock (`SystemTime::now`), in milliseconds since the epoch. The
/// time is whatever it is: nothing is said of it.
#[verifier::external_body]
pub(crate) fn now_millis() -> (r: u64) {
    std::time::SystemTime::now().duration_since(std::time::UNIX_EPOCH).unwrap_or_default().as_millis() as u64
}

/// A timestamp, or the present where there is none.
pub open spec fn moment(ts: Option<u64>, now: u64) -> u64 {
    match ts {
        Some(ms) => ms,
        None => now,
    }
}

/// The moment that a timestamp in the format of RFC 3339 stands for, in
/// milliseconds since the epoch; `None` for any other text.
pub uninterp spec fn rfc3339(s: Seq<char>) -> Option<i64>;

/// `chrono::DateTime::parse_from_rfc3339`, and the milliseconds of what it
/// gives, depend on the text alone.
#[verifier::external_body]
pub(crate) fn parse_rfc3339(s: &str) -> (r: Option<i64>)
    ensures
        r == rfc3339(s@),
{
    chrono::DateTime::parse_from_rfc3339(s).ok().map(|d| d.timestamp_millis())
}

} // verus!
