//! Instants, in nanoseconds since the Unix epoch, as the Falcon API writes them.
use crate::query::option_text;
use vstd::prelude::*;

verus! {

/// The first instant that has a date: the start of the year -9999.
pub const FIRST_INSTANT: i128 = -377_705_116_800_000_000_000;

/// The last instant that has a date: the end of the year 9999.
pub const LAST_INSTANT: i128 = 253_402_300_799_999_999_999;

/// A day in nanoseconds.
pub const DAY: i128 = 86_400_000_000_000;

/// Whether an instant has a date.
pub open spec fn has_date(nanos: int) -> bool {
    FIRST_INSTANT <= nanos <= LAST_INSTANT
}

/// The RFC 3339 text of an instant, as the `time` crate writes it; nothing where it has none.
pub uninterp spec fn rfc3339(nanos: i128) -> Option<Seq<char>>;

/// `OffsetDateTime::from_unix_timestamp_nanos` and `OffsetDateTime::format` with
/// `well_known::Rfc3339` of the `time` crate: a function of the instant, in UTC, that fails where
/// the instant has no date or its year cannot be written.
#[verifier::external_body]
fn write_instant(nanos: i128) -> (r: Option<String>)
    ensures
        option_text(r) == rfc3339(nanos),
{
    let date = time::OffsetDateTime::from_unix_timestamp_nanos(nanos).ok()?;
    date.format(&time::format_description::well_known::Rfc3339).ok()
}

/// A text, or the empty one.
pub open spec fn or_empty(text: Option<Seq<char>>) -> Seq<char> {
    match text {
        Some(t) => t,
        None => Seq::empty(),
    }
}

/// Whether the instant that many days before another has a date.
pub open spec fn reaches_back(now: i128, days: i64) -> bool {
    has_date(now as int) && has_date(now - days * DAY)
}

/// The instant that many days before another.
pub open spec fn days_before(now: i128, days: i64) -> i128 {
    (now - days * DAY) as i128
}

/// Whether the instant that many days before another has a date.
pub fn can_look_back(now: i128, days: i64) -> (r: bool)
    ensures
        r == reaches_back(now, days),
{
    if now < FIRST_INSTANT || now > LAST_INSTANT {
        return false;
    }
    let before: i128 = now - days as i128 * DAY;
    FIRST_INSTANT <= before && before <= LAST_INSTANT
}

/// The time of an instant; empty where it cannot be written.
pub fn now(instant: i128) -> (r: String)
    ensures
        r@ == or_empty(rfc3339(instant)),
{
    match write_instant(instant) {
        Some(text) => text,
        None => String::new(),
    }
}

/// The time that many days before an instant; empty where it cannot be written.
pub fn cutoff(instant: i128, days: i64) -> (r: String)
    requires
        reaches_back(instant, days),
    ensures
        r@ == or_empty(rfc3339(days_before(instant, days))),
{
    now(instant - days as i128 * DAY)
}

/// A filter for what came after a time.
pub open spec fn after_filter(field: Seq<char>, time: Seq<char>) -> Seq<char> {
    field + ":>\""@ + time + "\""@
}

/// Builds a filter for what came after a time.
pub fn filter_after(field: &str, time: &str) -> (r: String)
    ensures
        r@ == after_filter(field@, time@),
{
    let mut out: String = field.to_owned();
    out.append(":>\"");
    out.append(time);
    out.append("\"");
    out
}

} // verus!
