//! NOAA SWPC payload texts: observation times, the scales product's date and
//! time stamps, scale summaries and forecast labels, and the choices that
//! assemble a fetch.
use vstd::prelude::*;
use crate::text::{
    chars_of, decimal_int, owned, push_all, push_char, push_decimal_signed, push_repeat,
    push_str, string_of, string_of_range, text_before, text_less, lemma_text_before_irreflexive,
    lemma_text_before_total, lemma_text_before_transitive, trim, trim_str,
};
use crate::time::{
    add_days, date_midnight, format_rfc3339, instant_plus_days, parse_date, parse_rfc3339,
    parse_time, rfc3339_instant, rfc3339_text, time_of_day, UtcInstant,
};
use vstd::utf8::encode_utf8;
use vstd::string::StringSliceAdditionalSpecFns;
use super::risk_model::{scale_level, RiskLevel};
use super::SpaceWeatherError;

verus! {

/// Source tag of NOAA SWPC rows.
pub const SOURCE: &'static str = "noaa-swpc";
/// Largest response body accepted.
pub const MAX_RESPONSE_BYTES: usize = 1048576;

/// One scale (R, S or G) of a NOAA scales entry.
#[derive(Debug, Clone, PartialEq, Eq)]
pub struct RawScaleValue {
    pub scale: Option<String>,
    pub text: Option<String>,
}

/// One entry of the NOAA scales product: the current day (`"0"`) or a
/// forecast day (`"1"`..`"3"`).
#[derive(Debug, Clone, PartialEq, Eq)]
pub struct RawScaleEntry {
    pub date_stamp: String,
    pub time_stamp: String,
    pub radio_blackout: RawScaleValue,
    pub radiation: RawScaleValue,
    pub geomagnetic: RawScaleValue,
}

/// The error for an unreadable timestamp text.
pub open spec fn timestamp_error(raw: Seq<char>, m: Seq<char>) -> Seq<char> {
    "timestamp '"@ + raw + "': "@ + m
}

/// Parses an RFC 3339 timestamp into a UTC instant.
pub fn parse_rfc3339_utc(raw: &str) -> (r: Result<UtcInstant, SpaceWeatherError>)
    ensures
        match rfc3339_instant(raw@) {
            Ok(v) => r matches Ok(t) && t.secs == v.0 && t.nanos == v.1,
            Err(m) => r matches Err(SpaceWeatherError::Parse(e)) && e@ == timestamp_error(raw@, m),
        },
        r matches Ok(t) ==> rfc3339_text(t.secs as int, t.nanos as int) is Some && instant_plus_days(
            t.secs as int,
            t.nanos as int,
            1,
        ) is Some,
{
    match parse_rfc3339(raw) {
        Ok(t) => Ok(t),
        Err(m) => {
            let mut e = owned("timestamp '");
            push_str(&mut e, raw);
            push_str(&mut e, "': ");
            push_str(&mut e, m.as_str());
            Err(SpaceWeatherError::Parse(e))
        },
    }
}

/// The canonical UTC text of a NOAA planetary-K time tag, which carries no
/// zone: the tag read as UTC, written back in RFC 3339.
pub open spec fn noaa_utc_text(raw: Seq<char>) -> Result<Seq<char>, Seq<char>> {
    let with_zone = raw + seq!['Z'];
    match rfc3339_instant(with_zone) {
        Ok(v) => Ok(rfc3339_text(v.0, v.1)->Some_0),
        Err(m) => Err(timestamp_error(with_zone, m)),
    }
}

/// Normalizes a NOAA time tag (UTC without a zone) to RFC 3339 text.
pub fn normalize_noaa_utc(raw: &str) -> (r: Result<String, SpaceWeatherError>)
    ensures
        match noaa_utc_text(raw@) {
            Ok(t) => r matches Ok(s) && s@ == t,
            Err(m) => r matches Err(SpaceWeatherError::Parse(e)) && e@ == m,
        },
{
    let mut with_zone = owned(raw);
    push_char(&mut with_zone, 'Z');
    assert(with_zone@ =~= raw@ + seq!['Z']);
    let t = match parse_rfc3339_utc(with_zone.as_str()) {
        Ok(t) => t,
        Err(e) => {
            return Err(e);
        },
    };
    match format_rfc3339(t) {
        Some(s) => Ok(s),
        None => Err(SpaceWeatherError::Parse(owned("timestamp out of range"))),
    }
}

/// `s` with every trailing `UTC` removed (as `str::trim_end_matches`).
pub open spec fn strip_utc_suffixes(s: Seq<char>) -> Seq<char>
    decreases s.len(),
{
    if s.len() >= 3 && s.subrange(s.len() - 3, s.len() as int) == seq!['U', 'T', 'C'] {
        strip_utc_suffixes(s.subrange(0, s.len() - 3))
    } else {
        s
    }
}

/// `c` repeated `n` times.
pub open spec fn repeat_char(c: char, n: int) -> Seq<char> {
    Seq::new(if n > 0 {
        n as nat
    } else {
        0
    }, |_i: int| c)
}

/// `s` left-padded with zeros to at least `width` characters.
pub open spec fn zero_pad(s: Seq<char>, width: int) -> Seq<char> {
    repeat_char('0', width - s.len()) + s
}

/// How a compact NOAA time stamp is completed and which format reads it:
/// one or two digits are hours, three or four are hours and minutes, five or
/// six add seconds (lengths counted in bytes, padding in characters).
pub open spec fn compact_time(time: Seq<char>, byte_len: int) -> (Seq<char>, Seq<char>) {
    let padded = if byte_len == 1 || byte_len == 2 {
        zero_pad(time, 2) + seq!['0', '0']
    } else if byte_len == 3 || byte_len == 4 {
        zero_pad(time, 4)
    } else if byte_len == 5 || byte_len == 6 {
        zero_pad(time, 6)
    } else {
        time
    };
    (padded, if padded.len() == 6 {
        "%H%M%S"@
    } else {
        "%H%M"@
    })
}

/// The time of day a NOAA time stamp denotes: `HH:MM:SS` or `HH:MM` when it
/// holds a colon, else a compact digit form.
pub open spec fn noaa_time_spec(time: Seq<char>, byte_len: int) -> Result<(int, int), Seq<char>> {
    if time.contains(':') {
        match time_of_day(time, "%H:%M:%S"@) {
            Ok(v) => Ok(v),
            Err(_) => time_of_day(time, "%H:%M"@),
        }
    } else {
        let (padded, fmt) = compact_time(time, byte_len);
        time_of_day(padded, fmt)
    }
}

/// Whether a character vector holds `c`.
fn has_char(v: &Vec<char>, c: char) -> (r: bool)
    ensures
        r == v@.contains(c),
{
    let mut i: usize = 0;
    while i < v.len()
        invariant
            i <= v@.len(),
            forall|j: int| 0 <= j < i ==> v@[j] != c,
        decreases v@.len() - i,
    {
        if v[i] == c {
            assert(v@[i as int] == c);
            return true;
        }
        i = i + 1;
    }
    false
}

/// `s` left-padded with zeros to at least `width` characters.
fn zero_padded(s: &Vec<char>, width: usize) -> (r: String)
    ensures
        r@ == zero_pad(s@, width as int),
{
    let mut r = String::new();
    if s.len() < width {
        push_repeat(&mut r, '0', width - s.len());
    }
    push_all(&mut r, s);
    assert(r@ =~= zero_pad(s@, width as int));
    r
}

/// Reads a NOAA time stamp into seconds from midnight and nanoseconds.
pub fn parse_noaa_time(time: &str) -> (r: Result<(u32, u32), String>)
    ensures
        match noaa_time_spec(time@, encode_utf8(time@).len() as int) {
            Ok(v) => r matches Ok(t) && t.0 == v.0 && t.1 == v.1,
            Err(m) => r matches Err(e) && e@ == m,
        },
        r matches Ok(t) ==> t.0 < 86400 && t.1 < 2_000_000_000 && (t.1 < 1_000_000_000 || t.0 % 60
            == 59),
{
    let chars = chars_of(time);
    if has_char(&chars, ':') {
        if let Ok(v) = parse_time(time, "%H:%M:%S") {
            return Ok(v);
        }
        return parse_time(time, "%H:%M");
    }
    let n = time.as_bytes().len();
    let padded = if n == 1 || n == 2 {
        let mut p = zero_padded(&chars, 2);
        push_char(&mut p, '0');
        push_char(&mut p, '0');
        p
    } else if n == 3 || n == 4 {
        zero_padded(&chars, 4)
    } else if n == 5 || n == 6 {
        zero_padded(&chars, 6)
    } else {
        owned(time)
    };
    let pc = chars_of(padded.as_str());
    proof {
        assert(time.spec_bytes() == encode_utf8(time@));
        assert(n == encode_utf8(time@).len());
        if n == 1 || n == 2 {
            assert(padded@ =~= zero_pad(time@, 2) + seq!['0', '0']);
        }
        assert(padded@ =~= compact_time(time@, n as int).0);
    }
    if pc.len() == 6 {
        parse_time(padded.as_str(), "%H%M%S")
    } else {
        parse_time(padded.as_str(), "%H%M")
    }
}

/// Stripping a trailing `UTC` moves on to the shorter text.
proof fn lemma_strip_utc_step(s: Seq<char>)
    requires
        s.len() >= 3,
        s[s.len() - 3] == 'U' && s[s.len() - 2] == 'T' && s[s.len() - 1] == 'C',
    ensures
        strip_utc_suffixes(s) == strip_utc_suffixes(s.subrange(0, s.len() - 3)),
{
    assert(s.subrange(s.len() - 3, s.len() as int) =~= seq!['U', 'T', 'C']);
}

/// A text that does not end in `UTC` is left as it is.
proof fn lemma_strip_utc_stop(s: Seq<char>)
    requires
        !(s.len() >= 3 && s[s.len() - 3] == 'U' && s[s.len() - 2] == 'T' && s[s.len() - 1] == 'C'),
    ensures
        strip_utc_suffixes(s) == s,
{
    if s.len() >= 3 && s.subrange(s.len() - 3, s.len() as int) == seq!['U', 'T', 'C'] {
        assert(s.subrange(s.len() - 3, s.len() as int)[0] == s[s.len() - 3]);
        assert(s.subrange(s.len() - 3, s.len() as int)[1] == s[s.len() - 2]);
        assert(s.subrange(s.len() - 3, s.len() as int)[2] == s[s.len() - 1]);
    }
}

/// The length of `v` with every trailing `UTC` removed.
fn strip_utc_end(v: &Vec<char>) -> (end: usize)
    ensures
        end <= v@.len(),
        v@.subrange(0, end as int) == strip_utc_suffixes(v@),
{
    let mut end = v.len();
    assert(v@.subrange(0, end as int) =~= v@);
    while end >= 3 && v[end - 3] == 'U' && v[end - 2] == 'T' && v[end - 1] == 'C'
        invariant
            end <= v@.len(),
            strip_utc_suffixes(v@) == strip_utc_suffixes(v@.subrange(0, end as int)),
        decreases end,
    {
        proof {
            let s = v@.subrange(0, end as int);
            lemma_strip_utc_step(s);
            assert(s.subrange(0, s.len() - 3) =~= v@.subrange(0, end - 3));
        }
        end = end - 3;
    }
    proof {
        let s = v@.subrange(0, end as int);
        if end >= 3 {
            assert(s[s.len() - 3] == v@[end - 3]);
            assert(s[s.len() - 2] == v@[end - 2]);
            assert(s[s.len() - 1] == v@[end - 1]);
        }
        lemma_strip_utc_stop(s);
    }
    end
}

/// The time stamp a NOAA scales entry's time reads as: trimmed, trailing
/// `UTC` removed, trimmed again.
pub open spec fn clean_time(time: Seq<char>) -> Seq<char> {
    trim(strip_utc_suffixes(trim(time)))
}

/// The canonical UTC text of a scales entry's date and time stamps, or the
/// message of the first one that does not read.
pub open spec fn noaa_date_time_text(date: Seq<char>, time: Seq<char>) -> Result<
    Seq<char>,
    Seq<char>,
> {
    match date_midnight(date) {
        Err(e) => Err("date '"@ + date + "': "@ + e),
        Ok(m) => match noaa_time_spec(clean_time(time), encode_utf8(clean_time(time)).len() as int) {
            Err(e) => Err("time '"@ + time + "': "@ + e),
            Ok(t) => Ok(rfc3339_text(m + t.0, t.1)->Some_0),
        },
    }
}

/// Combines a scales entry's `YYYY-MM-DD` date stamp and its time stamp into
/// RFC 3339 UTC text.
pub fn normalize_noaa_date_time(date: &str, time: &str) -> (r: Result<String, SpaceWeatherError>)
    ensures
        match noaa_date_time_text(date@, time@) {
            Ok(t) => r matches Ok(s) && s@ == t,
            Err(m) => r matches Err(SpaceWeatherError::Parse(e)) && e@ == m,
        },
{
    let midnight = match parse_date(date) {
        Ok(m) => m,
        Err(e) => {
            let mut m = owned("date '");
            push_str(&mut m, date);
            push_str(&mut m, "': ");
            push_str(&mut m, e.as_str());
            return Err(SpaceWeatherError::Parse(m));
        },
    };
    let trimmed = trim_str(time);
    let end = strip_utc_end(&trimmed);
    let stripped = string_of_range(&trimmed, 0, end);
    let cleaned = string_of(&trim_str(stripped.as_str()));
    let clean = cleaned.as_str();
    assert(clean@ == clean_time(time@));
    let (secs, nanos) = match parse_noaa_time(clean) {
        Ok(v) => v,
        Err(e) => {
            let mut m = owned("time '");
            push_str(&mut m, time);
            push_str(&mut m, "': ");
            push_str(&mut m, e.as_str());
            return Err(SpaceWeatherError::Parse(m));
        },
    };
    let at = UtcInstant { secs: midnight + secs as i64, nanos };
    match format_rfc3339(at) {
        Some(s) => Ok(s),
        None => Err(SpaceWeatherError::Parse(owned("timestamp out of range"))),
    }
}

impl RawScaleEntry {
    /// The entry's date and time stamps as RFC 3339 UTC text.
    pub fn timestamp_utc(&self) -> (r: Result<String, SpaceWeatherError>)
        ensures
            match noaa_date_time_text(self.date_stamp@, self.time_stamp@) {
                Ok(t) => r matches Ok(s) && s@ == t,
                Err(m) => r matches Err(SpaceWeatherError::Parse(e)) && e@ == m,
            },
    {
        normalize_noaa_date_time(self.date_stamp.as_str(), self.time_stamp.as_str())
    }
}

/// The summary part of one scale: its label and scale (`?` when missing),
/// then `: ` and its text when non-empty.
pub open spec fn scale_part(label: char, v: RawScaleValue) -> Seq<char> {
    let scale = match v.scale {
        Some(s) => s@,
        None => seq!['?'],
    };
    let text = match v.text {
        Some(t) => t@,
        None => Seq::empty(),
    };
    if text.len() == 0 {
        seq![label] + scale
    } else {
        seq![label] + scale + ": "@ + text
    }
}

/// The summary of a scales entry: its R, S and G parts joined by `; `.
pub open spec fn scale_summary_text(e: RawScaleEntry) -> Seq<char> {
    scale_part('R', e.radio_blackout) + "; "@ + scale_part('S', e.radiation) + "; "@ + scale_part(
        'G',
        e.geomagnetic,
    )
}

/// Appends the summary part of one scale.
fn push_scale_part(out: &mut String, label: char, v: &RawScaleValue)
    ensures
        final(out)@ == old(out)@ + scale_part(label, *v),
{
    let ghost start = out@;
    push_char(out, label);
    match &v.scale {
        Some(s) => push_str(out, s.as_str()),
        None => push_char(out, '?'),
    }
    let text_len = match &v.text {
        Some(t) => chars_of(t.as_str()).len(),
        None => 0,
    };
    if text_len > 0 {
        push_str(out, ": ");
        match &v.text {
            Some(t) => push_str(out, t.as_str()),
            None => {},
        }
    }
    assert(out@ =~= start + scale_part(label, *v));
}

/// The summary of a scales entry: `R<scale>[: text]; S...; G...`.
pub fn scale_summary(entry: &RawScaleEntry) -> (s: String)
    ensures
        s@ == scale_summary_text(*entry),
{
    let mut out = String::new();
    push_scale_part(&mut out, 'R', &entry.radio_blackout);
    push_str(&mut out, "; ");
    push_scale_part(&mut out, 'S', &entry.radiation);
    push_str(&mut out, "; ");
    push_scale_part(&mut out, 'G', &entry.geomagnetic);
    assert(out@ =~= scale_summary_text(*entry));
    out
}

/// The risk label of a forecast day: `G` and its geomagnetic scale, or `G?`.
pub open spec fn forecast_level_text(scale: Option<String>) -> Seq<char> {
    match scale {
        Some(s) => seq!['G'] + s@,
        None => seq!['G', '?'],
    }
}

/// The risk label of a forecast day.
pub fn forecast_risk_level(scale: &Option<String>) -> (s: String)
    ensures
        s@ == forecast_level_text(*scale),
{
    let mut out = String::new();
    push_char(&mut out, 'G');
    match scale {
        Some(t) => push_str(&mut out, t.as_str()),
        None => push_char(&mut out, '?'),
    }
    assert(out@ =~= forecast_level_text(*scale));
    out
}

/// The text fields of a forecast row built from a scales entry.
#[derive(Debug, Clone, PartialEq, Eq)]
pub struct ForecastFields {
    pub issued_at: String,
    pub valid_from: String,
    pub valid_to: String,
    pub risk_level: String,
    pub summary: String,
}

/// Why a forecast cannot be built from the timestamp text `stamp`: it does
/// not read, or chrono cannot move the instant a day or write either back.
pub open spec fn forecast_fault(stamp: Seq<char>) -> Option<Seq<char>> {
    match rfc3339_instant(stamp) {
        Err(m) => Some(timestamp_error(stamp, m)),
        Ok(from) => match instant_plus_days(from.0, from.1, 1) {
            None => Some("timestamp out of range"@),
            Some(to) => if rfc3339_text(from.0, from.1) is Some && rfc3339_text(to.0, to.1) is Some {
                None
            } else {
                Some("timestamp out of range"@)
            },
        },
    }
}

/// The day a forecast stamped `stamp` covers, as RFC 3339 texts of its start
/// and of one day later.
pub open spec fn forecast_window(stamp: Seq<char>) -> (Seq<char>, Seq<char>) {
    let from = rfc3339_instant(stamp)->Ok_0;
    let to = instant_plus_days(from.0, from.1, 1)->Some_0;
    (rfc3339_text(from.0, from.1)->Some_0, rfc3339_text(to.0, to.1)->Some_0)
}

/// The forecast fields of a scales entry: valid for the day starting at the
/// entry's timestamp, labelled by its geomagnetic scale.
pub fn forecast_fields(entry: &RawScaleEntry, issued_at: &str) -> (r: Result<
    ForecastFields,
    SpaceWeatherError,
>)
    ensures
        match noaa_date_time_text(entry.date_stamp@, entry.time_stamp@) {
            Err(m) => r matches Err(SpaceWeatherError::Parse(e)) && e@ == m,
            Ok(stamp) => match forecast_fault(stamp) {
                Some(m) => r matches Err(SpaceWeatherError::Parse(e)) && e@ == m,
                None => r matches Ok(f) && f.issued_at@ == issued_at@ && f.valid_from@
                    == forecast_window(stamp).0 && f.valid_to@ == forecast_window(stamp).1
                    && f.risk_level@ == forecast_level_text(entry.geomagnetic.scale) && f.summary@
                    == scale_summary_text(*entry),
            },
        },
{
    let stamp = match entry.timestamp_utc() {
        Ok(s) => s,
        Err(e) => {
            return Err(e);
        },
    };
    let from = match parse_rfc3339_utc(stamp.as_str()) {
        Ok(t) => t,
        Err(e) => {
            return Err(e);
        },
    };
    let to = match add_days(from, 1) {
        Some(t) => t,
        None => {
            return Err(SpaceWeatherError::Parse(owned("timestamp out of range")));
        },
    };
    let valid_from = match format_rfc3339(from) {
        Some(s) => s,
        None => {
            return Err(SpaceWeatherError::Parse(owned("timestamp out of range")));
        },
    };
    let valid_to = match format_rfc3339(to) {
        Some(s) => s,
        None => {
            return Err(SpaceWeatherError::Parse(owned("timestamp out of range")));
        },
    };
    Ok(
        ForecastFields {
            issued_at: owned(issued_at),
            valid_from,
            valid_to,
            risk_level: forecast_risk_level(&entry.geomagnetic.scale),
            summary: scale_summary(entry),
        },
    )
}

/// The summary of a planetary-K row: its station count, if reported.
pub fn station_summary(count: Option<i64>) -> (r: Option<String>)
    ensures
        match count {
            Some(n) => r matches Some(s) && s@ == "station_count="@ + decimal_int(n as int),
            None => r is None,
        },
{
    match count {
        Some(n) => {
            let mut s = owned("station_count=");
            push_decimal_signed(&mut s, n);
            Some(s)
        },
        None => None,
    }
}

/// The issue time of forecasts: the current entry's timestamp when it reads,
/// else the fetch time.
pub fn issued_at_of(current: Option<&RawScaleEntry>, fetched_at: &str) -> (s: String)
    ensures
        current is None ==> s@ == fetched_at@,
        current matches Some(e) ==> s@ == match noaa_date_time_text(e.date_stamp@, e.time_stamp@) {
            Ok(t) => t,
            Err(_) => fetched_at@,
        },
{
    match current {
        Some(entry) => match entry.timestamp_utc() {
            Ok(t) => t,
            Err(_) => owned(fetched_at),
        },
        None => owned(fetched_at),
    }
}

/// Whether some snapshot is usable: it has a Kp index or a recognized
/// geomagnetic scale.
pub open spec fn usable_snapshot(has_kp: bool, scale: Option<String>) -> bool {
    has_kp || (scale matches Some(s) && scale_level(s@) is Some)
}

/// Whether any snapshot of a fetch is usable (`has_kp[i]` and `scales[i]`
/// describe snapshot `i`).
pub fn has_usable_snapshot(has_kp: &Vec<bool>, scales: &Vec<Option<String>>) -> (r: bool)
    requires
        has_kp@.len() == scales@.len(),
    ensures
        r == exists|i: int| 0 <= i < has_kp@.len() && usable_snapshot(#[trigger] has_kp@[i], scales@[i]),
{
    let mut i: usize = 0;
    while i < has_kp.len()
        invariant
            i <= has_kp@.len(),
            has_kp@.len() == scales@.len(),
            forall|j: int| 0 <= j < i ==> !usable_snapshot(#[trigger] has_kp@[j], scales@[j]),
        decreases has_kp@.len() - i,
    {
        let usable = has_kp[i] || match &scales[i] {
            Some(s) => RiskLevel::from_g_scale(s.as_str()).is_some(),
            None => false,
        };
        if usable {
            assert(usable_snapshot(has_kp@[i as int], scales@[i as int]));
            return true;
        }
        i = i + 1;
    }
    false
}

/// Whether row `i` carries the latest Kp among the rows: it has a Kp index,
/// no row with a Kp has a later time, and no later row with a Kp has the
/// same time.
pub open spec fn latest_kp_at(observed: Seq<Seq<char>>, has_kp: Seq<bool>, i: int) -> bool {
    &&& 0 <= i < has_kp.len()
    &&& has_kp[i]
    &&& forall|j: int| 0 <= j < has_kp.len() && has_kp[j] ==> !text_before(observed[i], #[trigger] observed[j])
    &&& forall|j: int| i < j < has_kp.len() && has_kp[j] ==> text_before(#[trigger] observed[j], observed[i])
}

/// The texts of a list of strings.
pub open spec fn texts(v: Seq<String>) -> Seq<Seq<char>> {
    v.map_values(|s: String| s@)
}

/// The row carrying the latest Kp index: among rows with a Kp, the one with
/// the greatest time, the last of them on a tie; `None` when no row has a Kp.
pub fn latest_kp_row(observed: &Vec<String>, has_kp: &Vec<bool>) -> (r: Option<usize>)
    requires
        observed@.len() == has_kp@.len(),
    ensures
        match r {
            Some(i) => latest_kp_at(texts(observed@), has_kp@, i as int),
            None => forall|j: int| 0 <= j < has_kp@.len() ==> !#[trigger] has_kp@[j],
        },
{
    let ghost obs = texts(observed@);
    let mut best: Option<usize> = None;
    let mut best_chars: Vec<char> = Vec::new();
    let mut i: usize = 0;
    while i < has_kp.len()
        invariant
            i <= has_kp@.len(),
            observed@.len() == has_kp@.len(),
            obs == texts(observed@),
            match best {
                None => forall|j: int| 0 <= j < i ==> !#[trigger] has_kp@[j],
                Some(b) => {
                    &&& b < i
                    &&& has_kp@[b as int]
                    &&& best_chars@ == obs[b as int]
                    &&& forall|j: int| 0 <= j < i && has_kp@[j] ==> !text_before(obs[b as int], #[trigger] obs[j])
                    &&& forall|j: int| b < j < i && has_kp@[j] ==> text_before(#[trigger] obs[j], obs[b as int])
                },
            },
        decreases has_kp@.len() - i,
    {
        if has_kp[i] {
            let cur = chars_of(observed[i].as_str());
            assert(cur@ == obs[i as int]);
            let take = match best {
                None => true,
                Some(_) => !text_less(&cur, &best_chars),
            };
            if take {
                proof {
                    if best is Some {
                        let b = best->Some_0 as int;
                        assert forall|j: int| 0 <= j < i + 1 && has_kp@[j] implies !text_before(
                            obs[i as int],
                            #[trigger] obs[j],
                        ) by {
                            if j == i {
                                lemma_text_before_irreflexive(obs[i as int]);
                            } else {
                                if text_before(obs[i as int], obs[j]) {
                                    if obs[b] == obs[i as int] {
                                    } else {
                                        lemma_text_before_total(obs[b], obs[i as int]);
                                        lemma_text_before_transitive(obs[b], obs[i as int], obs[j]);
                                    }
                                }
                            }
                        }
                    } else {
                        lemma_text_before_irreflexive(obs[i as int]);
                    }
                }
                best = Some(i);
                best_chars = cur;
            } else {
                proof {
                    let b = best->Some_0 as int;
                    if text_before(obs[b], obs[i as int]) {
                        lemma_text_before_transitive(obs[b], obs[i as int], obs[b]);
                        lemma_text_before_irreflexive(obs[b]);
                    }
                }
            }
        }
        i = i + 1;
    }
    best
}

} // verus!

