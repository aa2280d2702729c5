//! The wall clock, and stored times read back as instants, through chrono.

use vstd::prelude::*;

verus! {

/// Milliseconds since the Unix epoch by the system clock: calls
/// `chrono::Utc::now()` and `DateTime::timestamp_millis` (the instant is the
/// same in every time zone, so no local offset is looked up). Nothing is
/// stated of the result, which depends on the time of the call.
#[verifier::external_body]
pub(crate) fn now_millis() -> (t: i64) {
    chrono::Utc::now().timestamp_millis()
}


/// The instant, in milliseconds since the Unix epoch, that a stored time
/// text (RFC 3339, with its offset) stands for, as chrono reads it; None
/// when the text is not such a time.
pub uninterp spec fn stored_time_millis(text: Seq<char>) -> Option<i64>;

/// Reads a stored time text: calls `str::parse` into chrono's
/// `DateTime<FixedOffset>` (chrono's RFC 3339 parser) and takes
/// `DateTime::timestamp_millis`. The contract names the result: it is a
/// function of the text alone.
#[verifier::external_body]
pub fn parse_stored_time(text: &str) -> (r: Option<i64>)
    ensures
        r == stored_time_millis(text@),
{
    match text.parse::<chrono::DateTime<chrono::FixedOffset>>() {
        Ok(t) => Some(t.timestamp_millis()),
        Err(_) => None,
    }
}

} // verus!
