//! Points in time: the timestamps that providers write, read by `chrono`,
//! and the distance of one from the present.

use vstd::prelude::*;

verus! {

/// The form in which the scoreboards write a start time: a date and a time
/// of day to the minute, in UTC.
pub open spec fn minute_format() -> Seq<char> {
    "%Y-%m-%dT%H:%MZ"@
}

/// The seconds since the Unix epoch of the date and time that `text` holds
/// in the form `format`, read as UTC; `None` where `chrono` reads none.
pub uninterp spec fn naive_seconds(text: Seq<char>, format: Seq<char>) -> Option<i64>;

/// The point in time that `text` holds in the relaxed RFC 3339 form that
/// `chrono` reads: whole seconds since the Unix epoch and the nanoseconds
/// beyond them; `None` where `chrono` reads none.
pub uninterp spec fn instant_parts(text: Seq<char>) -> Option<(i64, u32)>;

/// `chrono::NaiveDateTime::parse_from_str`, then `and_utc` and `timestamp`.
/// The contract names the seconds read and claims that an error comes
/// exactly where none are read; the error is handed on as its `Display`
/// text, of which nothing is claimed.
#[verifier::external_body]
pub(crate) fn read_naive_seconds(text: &str, format: &str) -> (r: Result<i64, String>)
    ensures
        match r {
            Ok(seconds) => naive_seconds(text@, format@) == Some(seconds),
            Err(_) => naive_seconds(text@, format@) is None,
        },
{
    chrono::NaiveDateTime::parse_from_str(text, format).map(|t| t.and_utc().timestamp()).map_err(
        |e| e.to_string(),
    )
}

/// `str::parse` for a `chrono::DateTime<Utc>`, then `timestamp` and
/// `timestamp_subsec_nanos`. The contract names the two numbers read and
/// claims that an error comes exactly where none are read.
#[verifier::external_body]
pub(crate) fn read_instant(text: &str) -> (r: Result<(i64, u32), String>)
    ensures
        match r {
            Ok(parts) => instant_parts(text@) == Some(parts),
            Err(_) => instant_parts(text@) is None,
        },
{
    text.parse::<chrono::DateTime<chrono::Utc>>().map(
        |t| (t.timestamp(), t.timestamp_subsec_nanos()),
    ).map_err(|e| e.to_string())
}

/// The nanoseconds since the Unix epoch of a point in time given by its
/// whole seconds and the nanoseconds beyond them, where 64 bits hold them.
pub open spec fn nanos_of(seconds: i64, beyond: u32) -> Option<i64> {
    let total = seconds * 1_000_000_000 + beyond;
    if i64::MIN <= total <= i64::MAX {
        Some(total as i64)
    } else {
        None
    }
}

/// The nanoseconds since the Unix epoch of a point in time, where 64 bits
/// hold them.
pub fn nanos_since_epoch(seconds: i64, beyond: u32) -> (r: Option<i64>)
    ensures
        r == nanos_of(seconds, beyond),
{
    let total: i128 = (seconds as i128) * 1_000_000_000 + (beyond as i128);
    if total < (i64::MIN as i128) || total > (i64::MAX as i128) {
        None
    } else {
        Some(total as i64)
    }
}

/// The whole hours between the present, in nanoseconds since the Unix
/// epoch, and a point in time in seconds since it, whichever comes first.
pub open spec fn hours_between(now: i64, seconds: i64) -> int {
    let distance = now - seconds * 1_000_000_000;
    if distance >= 0 {
        distance / 3_600_000_000_000
    } else {
        (-distance) / 3_600_000_000_000
    }
}

/// The whole hours between the present and a point in time.
pub fn hours_apart(now: i64, seconds: i64) -> (r: u128)
    ensures
        r == hours_between(now, seconds),
{
    let distance: i128 = (now as i128) - (seconds as i128) * 1_000_000_000;
    if distance >= 0 {
        (distance as u128) / 3_600_000_000_000
    } else {
        ((-distance) as u128) / 3_600_000_000_000
    }
}

/// Whether a point in time, in seconds since the Unix epoch, lies after the
/// present, in nanoseconds since it.
pub open spec fn is_after(seconds: i64, now: i64) -> bool {
    seconds * 1_000_000_000 > now
}

/// Whether a point in time lies after the present.
pub fn lies_after(seconds: i64, now: i64) -> (r: bool)
    ensures
        r == is_after(seconds, now),
{
    (seconds as i128) * 1_000_000_000 > (now as i128)
}

} // verus!
