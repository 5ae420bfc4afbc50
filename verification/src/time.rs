//! Points in time, held as a UNIX timestamp and its sub-second nanoseconds.

use vstd::prelude::*;

verus! {

/// A UTC instant: seconds since the UNIX epoch and nanoseconds within the
/// second (at or above one billion only inside a leap second).
#[derive(Clone, Copy, Debug, PartialEq, Eq, Structural)]
pub struct Timestamp {
    pub secs: i64,
    pub nanos: u32,
}

/// `a` is later than `b`.
pub open spec fn later(a: Timestamp, b: Timestamp) -> bool {
    a.secs > b.secs || (a.secs == b.secs && a.nanos > b.nanos)
}

/// Whether `a` is later than `b`.
pub fn is_later(a: Timestamp, b: Timestamp) -> (r: bool)
    ensures
        r == later(a, b),
{
    a.secs > b.secs || (a.secs == b.secs && a.nanos > b.nanos)
}

} // verus!

verus! {

/// Seconds since the epoch up to which every instant (with nanoseconds
/// below one billion) is in `chrono`'s range; that range ends in the year
/// 262142, past 8.2 * 10^12 seconds.
pub const EXACT_SECS_LIMIT: i64 = 8_000_000_000_000i64;

/// The current UTC time, read with `chrono::Utc::now()`. It depends on the
/// clock, so only this is promised: it is not before the epoch (`now`
/// panics then) and its nanoseconds come from a `Duration`, below one
/// billion.
#[verifier::external_body]
pub(crate) fn utc_now() -> (r: Timestamp)
    ensures
        r.secs >= 0,
        r.nanos < 1_000_000_000,
{
    let now = chrono::Utc::now();
    Timestamp { secs: now.timestamp(), nanos: now.timestamp_subsec_nanos() }
}

/// What `chrono` gives for the instant `t` plus `minutes` minutes
/// (`DateTime::checked_add_signed` with `TimeDelta::try_minutes`); `None`
/// where `t` is no valid instant or the sum leaves chrono's range.
pub uninterp spec fn instant_plus_minutes(t: Timestamp, minutes: i64) -> Option<Timestamp>;

/// Adds `minutes` minutes to the instant `t` with `chrono`
/// (`DateTime::from_timestamp`, `TimeDelta::try_minutes`,
/// `DateTime::checked_add_signed`). The result is named; it is stated for
/// an instant outside a leap second whose sum stays between the epoch and
/// `EXACT_SECS_LIMIT`: then the seconds grow by sixty per minute and the
/// nanoseconds stay.
#[verifier::external_body]
pub(crate) fn add_minutes(t: Timestamp, minutes: i64) -> (r: Option<Timestamp>)
    ensures
        r == instant_plus_minutes(t, minutes),
        (t.nanos < 1_000_000_000 && 0 <= t.secs <= EXACT_SECS_LIMIT
            && 0 <= t.secs + 60 * minutes <= EXACT_SECS_LIMIT)
            ==> r == Some(Timestamp { secs: (t.secs + 60 * minutes) as i64, nanos: t.nanos }),
{
    let start = chrono::DateTime::from_timestamp(t.secs, t.nanos)?;
    let delta = chrono::TimeDelta::try_minutes(minutes)?;
    let end = start.checked_add_signed(delta)?;
    Some(Timestamp { secs: end.timestamp(), nanos: end.timestamp_subsec_nanos() })
}

/// The RFC 3339 text that `chrono`'s `DateTime::<Utc>::to_rfc3339` gives
/// for the instant `t`; `None` where `t` is no valid instant.
pub uninterp spec fn rfc3339_text(t: Timestamp) -> Option<Seq<char>>;

/// Formats the instant `t` with `DateTime::<Utc>::to_rfc3339` (after
/// `DateTime::from_timestamp`, which refuses invalid instants).
#[verifier::external_body]
pub(crate) fn to_rfc3339(t: Timestamp) -> (r: Option<String>)
    ensures
        r matches Some(s) ==> rfc3339_text(t) == Some(s@),
        r is None ==> rfc3339_text(t) is None,
{
    let dt = chrono::DateTime::from_timestamp(t.secs, t.nanos)?;
    Some(dt.to_rfc3339())
}

} // verus!
