//! UTC instants, and the chrono calls that read and write their text forms.
use vstd::prelude::*;
use chrono::Timelike;

verus! {

/// A UTC instant: whole seconds since the Unix epoch, and nanoseconds into
/// the second (a leap second carries 1_000_000_000 or more).
#[derive(Debug, Clone, Copy, PartialEq, Eq, Structural)]
pub struct UtcInstant {
    pub secs: i64,
    pub nanos: u32,
}

/// The instant in nanoseconds since the epoch.
pub open spec fn instant_ns(t: UtcInstant) -> int {
    t.secs * 1_000_000_000 + t.nanos
}

/// Nanoseconds in a minute.
pub open spec fn minute_ns() -> int {
    60_000_000_000
}

/// The instant in nanoseconds since the epoch, exactly.
pub fn nanos_since_epoch(t: UtcInstant) -> (r: i128)
    ensures
        r == instant_ns(t),
{
    t.secs as i128 * 1_000_000_000 + t.nanos as i128
}

/// What chrono's RFC 3339 parser reads from a text, as UTC seconds and
/// nanoseconds, or the message of its error.
pub uninterp spec fn rfc3339_instant(text: Seq<char>) -> Result<(int, int), Seq<char>>;

/// The RFC 3339 text chrono writes for a UTC instant, if it can build one.
pub uninterp spec fn rfc3339_text(secs: int, nanos: int) -> Option<Seq<char>>;

/// The instant chrono computes `days` days after an instant, if in range.
pub uninterp spec fn instant_plus_days(secs: int, nanos: int, days: int) -> Option<(int, int)>;

/// The epoch seconds of midnight of the `%Y-%m-%d` date chrono reads, or its
/// error message.
pub uninterp spec fn date_midnight(text: Seq<char>) -> Result<int, Seq<char>>;

/// The seconds from midnight and nanoseconds of the time of day chrono reads
/// per a format, or its error message.
pub uninterp spec fn time_of_day(text: Seq<char>, fmt: Seq<char>) -> Result<(int, int), Seq<char>>;

/// Parses RFC 3339 text into a UTC instant (chrono
/// `DateTime::parse_from_rfc3339`, converted to UTC). The result is
/// `rfc3339_instant` of the text. An instant parsed this way has a four-digit
/// year, so chrono can write it back as text and move it a day later.
#[verifier::external_body]
pub(crate) fn parse_rfc3339(text: &str) -> (r: Result<UtcInstant, String>)
    ensures
        match r {
            Ok(t) => rfc3339_instant(text@) == Ok::<(int, int), Seq<char>>(
                (t.secs as int, t.nanos as int),
            ),
            Err(m) => rfc3339_instant(text@) == Err::<(int, int), Seq<char>>(m@),
        },
        r matches Ok(t) ==> rfc3339_text(t.secs as int, t.nanos as int) is Some && instant_plus_days(
            t.secs as int,
            t.nanos as int,
            1,
        ) is Some,
{
    match chrono::DateTime::parse_from_rfc3339(text) {
        Ok(dt) => {
            let u = dt.with_timezone(&chrono::Utc);
            Ok(UtcInstant { secs: u.timestamp(), nanos: u.timestamp_subsec_nanos() })
        },
        Err(e) => Err(e.to_string()),
    }
}

/// Writes a UTC instant as RFC 3339 text (chrono `DateTime::from_timestamp`,
/// then `to_rfc3339`); `None` when chrono cannot represent the instant. The
/// result is `rfc3339_text` of the instant.
#[verifier::external_body]
pub(crate) fn format_rfc3339(t: UtcInstant) -> (r: Option<String>)
    ensures
        match r {
            Some(s) => rfc3339_text(t.secs as int, t.nanos as int) == Some(s@),
            None => rfc3339_text(t.secs as int, t.nanos as int) is None,
        },
{
    chrono::DateTime::from_timestamp(t.secs, t.nanos).map(|dt| dt.to_rfc3339())
}

/// The instant `days` days after `t` (chrono `DateTime::checked_add_signed`);
/// `None` out of range. The result is `instant_plus_days` of the instant; off
/// a leap second it moves the seconds by whole days and keeps the fraction.
#[verifier::external_body]
pub(crate) fn add_days(t: UtcInstant, days: i64) -> (r: Option<UtcInstant>)
    ensures
        match r {
            Some(u) => instant_plus_days(t.secs as int, t.nanos as int, days as int) == Some(
                (u.secs as int, u.nanos as int),
            ),
            None => instant_plus_days(t.secs as int, t.nanos as int, days as int) is None,
        },
        (t.nanos < 1_000_000_000 && r is Some) ==> (r->Some_0.secs == t.secs + 86400 * days
            && r->Some_0.nanos == t.nanos),
{
    let dt = chrono::DateTime::from_timestamp(t.secs, t.nanos)?;
    let moved = dt.checked_add_signed(chrono::TimeDelta::try_days(days)?)?;
    Some(UtcInstant { secs: moved.timestamp(), nanos: moved.timestamp_subsec_nanos() })
}

/// Parses a `%Y-%m-%d` date (chrono `NaiveDate::parse_from_str`) into the
/// epoch seconds of its midnight; the result is `date_midnight` of the text.
/// Chrono's dates lie within about 262,000 years of the epoch, and any time
/// of day on a date chrono read can be written as RFC 3339 text.
#[verifier::external_body]
pub(crate) fn parse_date(text: &str) -> (r: Result<i64, String>)
    ensures
        match r {
            Ok(m) => date_midnight(text@) == Ok::<int, Seq<char>>(m as int),
            Err(e) => date_midnight(text@) == Err::<int, Seq<char>>(e@),
        },
        r matches Ok(m) ==> -35184372088832 <= m <= 35184372088832,
        r matches Ok(m) ==> forall|s: int, n: int|
            0 <= s < 86400 && 0 <= n < 2_000_000_000 && (n < 1_000_000_000 || s % 60 == 59)
                ==> #[trigger] rfc3339_text(m + s, n) is Some,
{
    match chrono::NaiveDate::parse_from_str(text, "%Y-%m-%d") {
        Ok(d) => Ok(d.and_time(chrono::NaiveTime::MIN).and_utc().timestamp()),
        Err(e) => Err(e.to_string()),
    }
}

/// Parses a time of day per a format (chrono `NaiveTime::parse_from_str`)
/// into seconds from midnight and nanoseconds; the result is `time_of_day`
/// of the text and format. A leap second is the 59th second of a minute with
/// a fraction of one second or more.
#[verifier::external_body]
pub(crate) fn parse_time(text: &str, fmt: &str) -> (r: Result<(u32, u32), String>)
    ensures
        match r {
            Ok(v) => time_of_day(text@, fmt@) == Ok::<(int, int), Seq<char>>(
                (v.0 as int, v.1 as int),
            ),
            Err(e) => time_of_day(text@, fmt@) == Err::<(int, int), Seq<char>>(e@),
        },
        r matches Ok(v) ==> v.0 < 86400 && v.1 < 2_000_000_000 && (v.1 < 1_000_000_000 || v.0 % 60
            == 59),
{
    match chrono::NaiveTime::parse_from_str(text, fmt) {
        Ok(t) => Ok((t.num_seconds_from_midnight(), t.nanosecond())),
        Err(e) => Err(e.to_string()),
    }
}

} // verus!
