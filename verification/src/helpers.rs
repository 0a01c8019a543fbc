//! Clock access and timestamp rendering. The clock itself is outside work;
//! everything computed from a captured timestamp is verified against the
//! rendering name below.

use vstd::prelude::*;

use crate::text::dec_digits;
use crate::text::push_dec_u128;

verus! {

/// The text chrono renders for a millisecond timestamp, such as
/// `1970-01-01 00:00:01.234`; a function of the millisecond value alone.
pub uninterp spec fn datetime_text_of(millis: int) -> Seq<char>;

/// Relies on chrono's `DateTime::<Utc>::from_timestamp_millis` and the
/// `Display` of `NaiveDateTime`: the rendering depends on the millisecond
/// value alone. A value outside chrono's representable range (about
/// 262,000 years from the common era) renders as the empty string.
#[verifier::external_body]
pub fn format_timestamp_millis(millis: i64) -> (r: String)
    ensures
        r@ == datetime_text_of(millis as int),
{
    match chrono::DateTime::<chrono::Utc>::from_timestamp_millis(millis) {
        Some(dt) => dt.naive_utc().to_string(),
        None => String::new(),
    }
}

/// Relies on std's `SystemTime`: the current wall-clock time in
/// milliseconds since the UNIX epoch, zero when the clock stands before
/// the epoch, saturated when the count exceeds `i64`. Nothing can be
/// promised of it.
#[verifier::external_body]
pub(crate) fn now_timestamp_millis() -> (r: i64) {
    match std::time::SystemTime::now().duration_since(std::time::SystemTime::UNIX_EPOCH) {
        Ok(d) => i64::try_from(d.as_millis()).unwrap_or(i64::MAX),
        Err(_) => 0,
    }
}

/// Relies on std's `SystemTime`: the nanoseconds since the UNIX epoch,
/// zero when the clock stands before the epoch. Nothing can be promised
/// of it.
#[verifier::external_body]
fn now_unix_nanos() -> (r: u128) {
    match std::time::SystemTime::now().duration_since(std::time::SystemTime::UNIX_EPOCH) {
        Ok(d) => d.as_nanos(),
        Err(_) => 0,
    }
}

/// The current time as a decimal count of nanoseconds since the epoch.
pub fn get_timestamp_as_nano() -> (r: String)
    ensures
        exists|n: nat| r@ == dec_digits(n),
{
    let ns = now_unix_nanos();
    let mut out = String::new();
    push_dec_u128(&mut out, ns);
    proof {
        assert(out@ == dec_digits(ns as nat));
    }
    out
}

} // verus!
