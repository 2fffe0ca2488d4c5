//! Sync scheduling for every "fetch remote, write storage, remember when"
//! flow: the metadata keys of each dataset, when stored data is stale, when
//! a recent attempt defers another, what a manual request may bypass, and
//! the partial-dump guard of the catalog.
use vstd::prelude::*;
use crate::satellite::{catalog_error_text, CatalogError};
use crate::space_weather::{space_weather_error_text, SpaceWeatherError};
use crate::text::{concat, decimal, owned, push_decimal, push_str};
use crate::time::{instant_ns, minute_ns, nanos_since_epoch, parse_rfc3339, rfc3339_instant, UtcInstant};
use crate::tle::{tle_error_text, TleError};

verus! {

/// Stored element sets are refetched after this many hours.
pub const TLE_MAX_AGE_HOURS: i64 = 2;
/// Space-weather observations are stale after this many hours.
pub const SPACE_WEATHER_MAX_AGE_HOURS: i64 = 2;
/// Catalog and TLE attempts are not retried within this many hours.
pub const SYNC_RETRY_BACKOFF_HOURS: i64 = 2;
/// Space-weather attempts are not retried within this many minutes.
pub const SPACE_WEATHER_RETRY_BACKOFF_MINUTES: i64 = 10;
/// Stamps up to this many minutes ahead of the clock are tolerated.
pub const SYNC_FUTURE_TOLERANCE_MINUTES: i64 = 5;
/// A full catalog dump below this share of the stored count is refused.
pub const CATALOG_MIN_RELATIVE_PERCENT: usize = 80;

/// A dataset kept in sync with a remote source.
#[derive(Debug, Clone, Copy, PartialEq, Eq, Structural)]
pub enum Dataset {
    Catalog,
    Telemetry,
    SpaceWeather,
    Tle,
}

/// The metadata key of a dataset's last successful sync.
pub open spec fn synced_key(d: Dataset) -> Seq<char> {
    match d {
        Dataset::Catalog => "sync_catalog_last_at"@,
        Dataset::Telemetry => "sync_telemetry_last_at"@,
        Dataset::SpaceWeather => "sync_space_weather_last_at"@,
        Dataset::Tle => "sync_tle_last_at"@,
    }
}

/// The metadata key of a dataset's last attempt.
pub open spec fn attempted_key(d: Dataset) -> Seq<char> {
    match d {
        Dataset::Catalog => "sync_catalog_last_attempt_at"@,
        Dataset::Telemetry => "sync_telemetry_last_attempt_at"@,
        Dataset::SpaceWeather => "sync_space_weather_last_attempt_at"@,
        Dataset::Tle => "sync_tle_last_attempt_at"@,
    }
}

/// The metadata key of a dataset's last error.
pub open spec fn error_key(d: Dataset) -> Seq<char> {
    match d {
        Dataset::Catalog => "sync_catalog_last_error"@,
        Dataset::Telemetry => "sync_telemetry_last_error"@,
        Dataset::SpaceWeather => "sync_space_weather_last_error"@,
        Dataset::Tle => "sync_tle_last_error"@,
    }
}

/// The name a dataset carries in events.
pub open spec fn dataset_event_name(d: Dataset) -> Seq<char> {
    match d {
        Dataset::Catalog => "catalog"@,
        Dataset::Telemetry => "telemetry"@,
        Dataset::SpaceWeather => "space_weather"@,
        Dataset::Tle => "tle"@,
    }
}

/// The name of a dataset's variant.
pub open spec fn dataset_debug_name(d: Dataset) -> Seq<char> {
    match d {
        Dataset::Catalog => "Catalog"@,
        Dataset::Telemetry => "Telemetry"@,
        Dataset::SpaceWeather => "SpaceWeather"@,
        Dataset::Tle => "Tle"@,
    }
}

impl Dataset {
    /// Stable metadata key for "last synced at".
    pub fn last_synced_key(self) -> (s: &'static str)
        ensures
            s@ == synced_key(self),
    {
        match self {
            Dataset::Catalog => "sync_catalog_last_at",
            Dataset::Telemetry => "sync_telemetry_last_at",
            Dataset::SpaceWeather => "sync_space_weather_last_at",
            Dataset::Tle => "sync_tle_last_at",
        }
    }

    /// Stable metadata key for "last attempted at".
    pub fn last_attempted_key(self) -> (s: &'static str)
        ensures
            s@ == attempted_key(self),
    {
        match self {
            Dataset::Catalog => "sync_catalog_last_attempt_at",
            Dataset::Telemetry => "sync_telemetry_last_attempt_at",
            Dataset::SpaceWeather => "sync_space_weather_last_attempt_at",
            Dataset::Tle => "sync_tle_last_attempt_at",
        }
    }

    /// Stable metadata key for "last error".
    pub fn last_error_key(self) -> (s: &'static str)
        ensures
            s@ == error_key(self),
    {
        match self {
            Dataset::Catalog => "sync_catalog_last_error",
            Dataset::Telemetry => "sync_telemetry_last_error",
            Dataset::SpaceWeather => "sync_space_weather_last_error",
            Dataset::Tle => "sync_tle_last_error",
        }
    }

    /// The dataset's name in events.
    pub fn event_name(self) -> (s: &'static str)
        ensures
            s@ == dataset_event_name(self),
    {
        match self {
            Dataset::Catalog => "catalog",
            Dataset::Telemetry => "telemetry",
            Dataset::SpaceWeather => "space_weather",
            Dataset::Tle => "tle",
        }
    }

    /// Whether the dataset has a sync flow (telemetry has none yet).
    pub fn supports_sync(self) -> (r: bool)
        ensures
            r == (self != Dataset::Telemetry),
    {
        !matches!(self, Dataset::Telemetry)
    }
}

/// Failure of a sync.
#[derive(Debug)]
pub enum SyncError {
    /// The storage layer failed; carries its message.
    Storage(String),
    Catalog(CatalogError),
    SpaceWeather(SpaceWeatherError),
    Tle(TleError),
    InvalidTimestamp { stored: String, message: String },
    UnsupportedDataset(Dataset),
}

/// The message a sync error displays.
pub open spec fn sync_error_text(e: SyncError) -> Seq<char> {
    match e {
        SyncError::Storage(s) => "storage error: "@ + s@,
        SyncError::Catalog(c) => "catalog error: "@ + catalog_error_text(c),
        SyncError::SpaceWeather(w) => "space weather error: "@ + space_weather_error_text(w),
        SyncError::Tle(t) => "tle error: "@ + tle_error_text(t),
        SyncError::InvalidTimestamp { stored, message } => "invalid stored timestamp '"@ + stored@
            + "': "@ + message@,
        SyncError::UnsupportedDataset(d) => "dataset "@ + dataset_debug_name(d)
            + " is not supported by sync_if_needed yet"@,
    }
}

impl SyncError {
    /// The message this error displays.
    pub fn message(&self) -> (s: String)
        ensures
            s@ == sync_error_text(*self),
    {
        match self {
            SyncError::Storage(s) => concat("storage error: ", s.as_str()),
            SyncError::Catalog(c) => concat("catalog error: ", c.message().as_str()),
            SyncError::SpaceWeather(w) => concat("space weather error: ", w.message().as_str()),
            SyncError::Tle(t) => concat("tle error: ", t.message().as_str()),
            SyncError::InvalidTimestamp { stored, message } => {
                let mut m = owned("invalid stored timestamp '");
                push_str(&mut m, stored.as_str());
                push_str(&mut m, "': ");
                push_str(&mut m, message.as_str());
                m
            },
            SyncError::UnsupportedDataset(d) => {
                let mut m = owned("dataset ");
                let name = match d {
                    Dataset::Catalog => "Catalog",
                    Dataset::Telemetry => "Telemetry",
                    Dataset::SpaceWeather => "SpaceWeather",
                    Dataset::Tle => "Tle",
                };
                push_str(&mut m, name);
                push_str(&mut m, " is not supported by sync_if_needed yet");
                m
            },
        }
    }
}

/// Reads a stored RFC 3339 stamp; one that does not read is reported with
/// the stored text and the parser's message.
pub fn parse_stored_timestamp(raw: &str) -> (r: Result<UtcInstant, SyncError>)
    ensures
        match rfc3339_instant(raw@) {
            Ok(v) => r matches Ok(t) && t.secs == v.0 && t.nanos == v.1,
            Err(m) => r matches Err(SyncError::InvalidTimestamp { stored, message }) && stored@
                == raw@ && message@ == m,
        },
{
    match parse_rfc3339(raw) {
        Ok(t) => Ok(t),
        Err(m) => Err(SyncError::InvalidTimestamp { stored: owned(raw), message: m }),
    }
}

/// Nanoseconds in an hour.
pub open spec fn hour_ns() -> int {
    3_600_000_000_000
}

/// The tolerance for stamps ahead of the clock.
pub open spec fn future_tolerance_ns() -> int {
    SYNC_FUTURE_TOLERANCE_MINUTES * minute_ns()
}

/// Whether data last synced at `last` needs a sync at `now`: it never was
/// synced, its stamp lies beyond the tolerance in the future, or it is older
/// than `max_age_secs`.
pub open spec fn stale_at(last: Option<UtcInstant>, now: UtcInstant, max_age_secs: int) -> bool {
    match last {
        None => true,
        Some(l) => {
            let age = instant_ns(now) - instant_ns(l);
            age < -future_tolerance_ns() || age > max_age_secs * 1_000_000_000
        },
    }
}

/// Whether data last synced at `last_synced` needs a sync at `now`.
pub fn is_stale(last_synced: Option<UtcInstant>, now: UtcInstant, max_age_secs: i64) -> (r: bool)
    ensures
        r == stale_at(last_synced, now, max_age_secs as int),
{
    match last_synced {
        None => true,
        Some(last) => {
            let age: i128 = nanos_since_epoch(now) - nanos_since_epoch(last);
            if age < -(SYNC_FUTURE_TOLERANCE_MINUTES as i128) * 60_000_000_000 {
                return true;
            }
            age > max_age_secs as i128 * 1_000_000_000
        },
    }
}

/// How long a failed attempt defers the next one.
pub open spec fn backoff_ns(d: Dataset) -> int {
    match d {
        Dataset::SpaceWeather => SPACE_WEATHER_RETRY_BACKOFF_MINUTES * minute_ns(),
        _ => SYNC_RETRY_BACKOFF_HOURS * hour_ns(),
    }
}

/// Whether an attempt at `last_attempt` defers another at `now`: it lies
/// within the dataset's backoff, and not beyond the tolerance in the future.
pub open spec fn deferred_at(d: Dataset, last_attempt: UtcInstant, now: UtcInstant) -> bool {
    let age = instant_ns(now) - instant_ns(last_attempt);
    age >= -future_tolerance_ns() && age < backoff_ns(d)
}

/// Whether an attempt at `last_attempt` defers another at `now`.
pub fn retry_is_deferred(dataset: Dataset, last_attempt: UtcInstant, now: UtcInstant) -> (r: bool)
    ensures
        r == deferred_at(dataset, last_attempt, now),
{
    let age: i128 = nanos_since_epoch(now) - nanos_since_epoch(last_attempt);
    let backoff: i128 = match dataset {
        Dataset::SpaceWeather => SPACE_WEATHER_RETRY_BACKOFF_MINUTES as i128 * 60_000_000_000,
        _ => SYNC_RETRY_BACKOFF_HOURS as i128 * 3_600_000_000_000,
    };
    age >= -(SYNC_FUTURE_TOLERANCE_MINUTES as i128) * 60_000_000_000 && age < backoff
}

/// What a sync does next.
#[derive(Debug, Clone, Copy, PartialEq, Eq, Structural)]
pub enum SyncPlan {
    /// Data is fresh: report it as synced at this stamp.
    Skip { last_synced_at: UtcInstant },
    /// A recent attempt defers this one: report that attempt.
    Defer { last_attempted_at: UtcInstant },
    /// Stamp the attempt and fetch.
    Attempt,
}

/// The first decision of an automatic sync: skip fresh data, else go on to
/// the retry check.
pub fn freshness_plan(last_synced: Option<UtcInstant>, now: UtcInstant, max_age_secs: i64) -> (p:
    SyncPlan)
    ensures
        stale_at(last_synced, now, max_age_secs as int) ==> p == SyncPlan::Attempt,
        !stale_at(last_synced, now, max_age_secs as int) ==> p == (SyncPlan::Skip {
            last_synced_at: last_synced->Some_0,
        }),
{
    if is_stale(last_synced, now, max_age_secs) {
        SyncPlan::Attempt
    } else {
        SyncPlan::Skip { last_synced_at: last_synced.unwrap() }
    }
}

/// The retry decision of an automatic sync: a recent attempt defers it.
pub fn retry_plan(dataset: Dataset, last_attempted: Option<UtcInstant>, now: UtcInstant) -> (p:
    SyncPlan)
    ensures
        (last_attempted matches Some(t) && deferred_at(dataset, t, now)) ==> p == (SyncPlan::Defer {
            last_attempted_at: last_attempted->Some_0,
        }),
        !(last_attempted matches Some(t) && deferred_at(dataset, t, now)) ==> p == SyncPlan::Attempt,
{
    match last_attempted {
        Some(t) => if retry_is_deferred(dataset, t, now) {
            SyncPlan::Defer { last_attempted_at: t }
        } else {
            SyncPlan::Attempt
        },
        None => SyncPlan::Attempt,
    }
}

/// The whole decision of an automatic sync given both stamps.
pub open spec fn auto_sync_decision(
    d: Dataset,
    now: UtcInstant,
    max_age_secs: int,
    last_synced: Option<UtcInstant>,
    last_attempted: Option<UtcInstant>,
) -> SyncPlan {
    if !stale_at(last_synced, now, max_age_secs) {
        SyncPlan::Skip { last_synced_at: last_synced->Some_0 }
    } else if last_attempted matches Some(t) && deferred_at(d, t, now) {
        SyncPlan::Defer { last_attempted_at: last_attempted->Some_0 }
    } else {
        SyncPlan::Attempt
    }
}

/// The whole decision of an automatic sync: fresh data is skipped, else a
/// recent attempt defers the sync, else it is attempted. The attempt stamp
/// is consulted only for stale data.
pub fn auto_sync_plan(
    dataset: Dataset,
    last_synced: Option<UtcInstant>,
    last_attempted: Option<UtcInstant>,
    now: UtcInstant,
    max_age_secs: i64,
) -> (p: SyncPlan)
    ensures
        p == auto_sync_decision(dataset, now, max_age_secs as int, last_synced, last_attempted),
{
    match freshness_plan(last_synced, now, max_age_secs) {
        SyncPlan::Attempt => retry_plan(dataset, last_attempted, now),
        skip => skip,
    }
}

/// A manual request that waited for a running sync is answered by it when
/// that sync's stamp is not older than the request.
pub fn manual_skip(waited: bool, last_synced: Option<UtcInstant>, requested_at: UtcInstant) -> (r:
    Option<UtcInstant>)
    ensures
        r == (if waited && (last_synced matches Some(s) && instant_ns(s) >= instant_ns(
            requested_at,
        )) {
            last_synced
        } else {
            None
        }),
{
    if waited {
        if let Some(s) = last_synced {
            if nanos_since_epoch(s) >= nanos_since_epoch(requested_at) {
                return Some(s);
            }
        }
    }
    None
}

/// The later of two optional stamps.
pub open spec fn later_of(a: Option<UtcInstant>, b: Option<UtcInstant>) -> Option<UtcInstant> {
    match (a, b) {
        (Some(x), Some(y)) => if instant_ns(x) >= instant_ns(y) {
            Some(x)
        } else {
            Some(y)
        },
        (Some(x), None) => Some(x),
        (None, Some(y)) => Some(y),
        (None, None) => None,
    }
}

/// The provider-request evidence of a manual TLE sync: the later of its last
/// attempt and last sync.
pub fn request_evidence(attempted: Option<UtcInstant>, synced: Option<UtcInstant>) -> (r: Option<
    UtcInstant,
>)
    ensures
        r == later_of(attempted, synced),
{
    match (attempted, synced) {
        (Some(a), Some(s)) => if nanos_since_epoch(a) >= nanos_since_epoch(s) {
            Some(a)
        } else {
            Some(s)
        },
        (Some(a), None) => Some(a),
        (None, Some(s)) => Some(s),
        (None, None) => None,
    }
}

/// The retry decision of a manual sync: it bypasses freshness, except that
/// TLE honours the provider's request cadence against its last request.
pub fn manual_retry_plan(
    dataset: Dataset,
    attempted: Option<UtcInstant>,
    synced: Option<UtcInstant>,
    now: UtcInstant,
) -> (p: SyncPlan)
    ensures
        dataset != Dataset::Tle ==> p == SyncPlan::Attempt,
        dataset == Dataset::Tle ==> p == (match later_of(attempted, synced) {
            Some(t) => if deferred_at(dataset, t, now) {
                SyncPlan::Defer { last_attempted_at: t }
            } else {
                SyncPlan::Attempt
            },
            None => SyncPlan::Attempt,
        }),
{
    if dataset != Dataset::Tle {
        return SyncPlan::Attempt;
    }
    retry_plan(dataset, request_evidence(attempted, synced), now)
}

/// Freshness: data synced within its maximum age (and not stamped beyond
/// the tolerance in the future) is skipped, whatever the attempts; data never
/// synced is always fetched or deferred, never skipped.
pub proof fn fresh_data_is_not_refetched(
    d: Dataset,
    now: UtcInstant,
    max_age_secs: int,
    synced: UtcInstant,
    attempted: Option<UtcInstant>,
)
    requires
        -future_tolerance_ns() <= instant_ns(now) - instant_ns(synced) <= max_age_secs * 1_000_000_000,
    ensures
        auto_sync_decision(d, now, max_age_secs, Some(synced), attempted) == (SyncPlan::Skip {
            last_synced_at: synced,
        }),
        !(auto_sync_decision(d, now, max_age_secs, None, attempted) is Skip),
{
}

/// Backoff: after an attempt, space weather may retry once its shorter
/// backoff has passed while the other datasets still wait; and no dataset is
/// deferred by an attempt older than its backoff.
pub proof fn space_weather_retries_first(attempt: UtcInstant, now: UtcInstant)
    requires
        SPACE_WEATHER_RETRY_BACKOFF_MINUTES * minute_ns() <= instant_ns(now) - instant_ns(attempt)
            < SYNC_RETRY_BACKOFF_HOURS * hour_ns(),
    ensures
        !deferred_at(Dataset::SpaceWeather, attempt, now),
        deferred_at(Dataset::Tle, attempt, now),
        deferred_at(Dataset::Catalog, attempt, now),
{
}

/// A manual TLE request never goes to the provider within the cadence of
/// its last request (attempt or sync), while other manual requests always
/// run.
pub proof fn manual_tle_honours_cadence(
    attempted: Option<UtcInstant>,
    synced: Option<UtcInstant>,
    now: UtcInstant,
    d: Dataset,
)
    requires
        later_of(attempted, synced) matches Some(t) && deferred_at(Dataset::Tle, t, now),
    ensures
        manual_plan_of(Dataset::Tle, attempted, synced, now) is Defer,
        d != Dataset::Tle ==> manual_plan_of(d, attempted, synced, now) == SyncPlan::Attempt,
{
}

/// The plan `manual_retry_plan` returns.
pub open spec fn manual_plan_of(
    d: Dataset,
    attempted: Option<UtcInstant>,
    synced: Option<UtcInstant>,
    now: UtcInstant,
) -> SyncPlan {
    if d != Dataset::Tle {
        SyncPlan::Attempt
    } else {
        match later_of(attempted, synced) {
            Some(t) => if deferred_at(d, t, now) {
                SyncPlan::Defer { last_attempted_at: t }
            } else {
                SyncPlan::Attempt
            },
            None => SyncPlan::Attempt,
        }
    }
}

/// The stored count as the guard reads it: negative and unrepresentable
/// counts read as zero.
pub open spec fn stored_count(existing: i64) -> int {
    if existing <= 0 || existing > usize::MAX {
        0
    } else {
        existing as int
    }
}

/// Multiplication saturating at `usize::MAX`.
pub open spec fn saturating_product(a: int, b: int) -> int {
    if a * b > usize::MAX {
        usize::MAX as int
    } else {
        a * b
    }
}

/// Whether a full dump of `incoming` records is refused against `existing`
/// stored ones: some are stored, and the dump holds less than the minimum
/// share of them (products saturate).
pub open spec fn partial_dump(incoming: usize, existing: i64) -> bool {
    stored_count(existing) > 0 && saturating_product(incoming as int, 100) < saturating_product(
        stored_count(existing),
        CATALOG_MIN_RELATIVE_PERCENT as int,
    )
}

/// The message of a refused partial dump.
pub open spec fn partial_dump_message(label: Seq<char>, incoming: usize, existing: i64) -> Seq<char> {
    "SatNOGS "@ + label + " count dropped from "@ + decimal(stored_count(existing) as nat)
        + " to "@ + decimal(incoming as nat)
        + "; refusing a likely partial full-dump response"@
}

/// Refuses a full catalog dump that dropped below the minimum share of the
/// stored count, which is taken for a partial response.
pub fn validate_catalog_relative_count(label: &str, incoming: usize, existing: i64) -> (r: Result<
    (),
    SyncError,
>)
    ensures
        !partial_dump(incoming, existing) ==> r is Ok,
        partial_dump(incoming, existing) ==> (r matches Err(SyncError::Catalog(CatalogError::Parse(m)))
            && m@ == partial_dump_message(label@, incoming, existing)),
{
    let stored: usize = if existing <= 0 {
        0
    } else if existing as u64 > usize::MAX as u64 {
        0
    } else {
        existing as usize
    };
    assert(stored == stored_count(existing));
    let incoming_share = match incoming.checked_mul(100) {
        Some(v) => v,
        None => usize::MAX,
    };
    let floor = match stored.checked_mul(CATALOG_MIN_RELATIVE_PERCENT) {
        Some(v) => v,
        None => usize::MAX,
    };
    if stored > 0 && incoming_share < floor {
        let mut m = owned("SatNOGS ");
        push_str(&mut m, label);
        push_str(&mut m, " count dropped from ");
        push_decimal(&mut m, stored as u64);
        push_str(&mut m, " to ");
        push_decimal(&mut m, incoming as u64);
        push_str(&mut m, "; refusing a likely partial full-dump response");
        return Err(SyncError::Catalog(CatalogError::Parse(m)));
    }
    Ok(())
}

/// What a performed or skipped sync reports.
#[derive(Debug, Clone, Copy, PartialEq, Eq, Structural)]
pub enum SyncOutcome {
    Skipped { dataset: Dataset, last_synced_at: UtcInstant },
    Deferred { dataset: Dataset, last_attempted_at: UtcInstant },
    Performed {
        dataset: Dataset,
        fetched_at: UtcInstant,
        satellites_written: usize,
        frequencies_written: usize,
    },
    SpaceWeatherPerformed {
        dataset: Dataset,
        fetched_at: UtcInstant,
        snapshots_written: usize,
        forecasts_written: usize,
    },
    TlePerformed { dataset: Dataset, fetched_at: UtcInstant, tle_written: usize, tle_skipped: usize },
}

/// Stored sync metadata of a dataset.
#[derive(Debug, Clone, PartialEq, Eq)]
pub struct SyncStatus {
    pub last_synced_at: Option<UtcInstant>,
    pub last_attempted_at: Option<UtcInstant>,
    pub last_error: Option<String>,
}


/// The request evidence of a manual TLE sync is the latest stamp there is:
/// none without stamps, else one of the stamps given, not earlier than any
/// of them.
pub proof fn request_evidence_is_the_latest_stamp(
    attempted: Option<UtcInstant>,
    synced: Option<UtcInstant>,
)
    ensures
        later_of(attempted, synced) is None <==> (attempted is None && synced is None),
        later_of(attempted, synced) matches Some(r) ==> {
            &&& (attempted == Some(r) || synced == Some(r))
            &&& (attempted matches Some(a) ==> instant_ns(r) >= instant_ns(a))
            &&& (synced matches Some(s) ==> instant_ns(r) >= instant_ns(s))
        },
{
}

} // verus!
