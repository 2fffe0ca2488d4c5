//! The shapes the user interface receives: command errors with their codes,
//! catalog and port rows, sync events, and the labels of enum values.
use vstd::prelude::*;
use crate::profile::{profile_error_text, ProfileError};
use crate::rotor::serial::SerialPortSummary;
use crate::satellite::{
    catalog_error_text, CatalogError, FrequencyRecord, SatelliteDetail, SatelliteRecord,
    SatelliteSummary as CatalogSummary,
};
use crate::space_weather::risk_model::ScaleSource;
use crate::space_weather::{space_weather_error_text, SpaceWeatherError};
use crate::sync::{sync_error_text, SyncError, SyncOutcome};
use crate::time::{format_rfc3339, rfc3339_text, UtcInstant};
use crate::text::{concat, owned};
use crate::tracking::{tracking_code, tracking_error_text, TrackingError};

verus! {

/// An error as a command reports it: a stable code and a message.
#[derive(Debug, Clone, PartialEq, Eq)]
pub struct CommandError {
    pub code: String,
    pub message: String,
}

/// The code a catalog error is reported under.
pub open spec fn catalog_code(e: CatalogError) -> Seq<char> {
    match e {
        CatalogError::Storage(_) => "storage_error"@,
        CatalogError::SnapshotParse(_) => "snapshot_parse"@,
        CatalogError::SnapshotSchemaMismatch { .. } => "snapshot_schema"@,
        CatalogError::SnapshotIo(_) => "snapshot_io"@,
        CatalogError::Network(_) => "network_error"@,
        CatalogError::Parse(_) => "parse_error"@,
    }
}

/// A catalog error as a command reports it.
pub fn map_catalog_err(e: CatalogError) -> (c: CommandError)
    ensures
        c.code@ == catalog_code(e),
        c.message@ == catalog_error_text(e),
{
    let code = match &e {
        CatalogError::Storage(_) => "storage_error",
        CatalogError::SnapshotParse(_) => "snapshot_parse",
        CatalogError::SnapshotSchemaMismatch { .. } => "snapshot_schema",
        CatalogError::SnapshotIo(_) => "snapshot_io",
        CatalogError::Network(_) => "network_error",
        CatalogError::Parse(_) => "parse_error",
    };
    CommandError { code: owned(code), message: e.message() }
}

/// The code a sync error is reported under.
pub open spec fn sync_code(e: SyncError) -> Seq<char> {
    match e {
        SyncError::Storage(_) => "storage_error"@,
        SyncError::Catalog(_) => "catalog_error"@,
        SyncError::SpaceWeather(_) => "space_weather_error"@,
        SyncError::Tle(_) => "tle_error"@,
        SyncError::InvalidTimestamp { .. } => "invalid_timestamp"@,
        SyncError::UnsupportedDataset(_) => "unsupported_dataset"@,
    }
}

/// A sync error as a command reports it.
pub fn map_sync_err(e: SyncError) -> (c: CommandError)
    ensures
        c.code@ == sync_code(e),
        c.message@ == sync_error_text(e),
{
    let code = match &e {
        SyncError::Storage(_) => "storage_error",
        SyncError::Catalog(_) => "catalog_error",
        SyncError::SpaceWeather(_) => "space_weather_error",
        SyncError::Tle(_) => "tle_error",
        SyncError::InvalidTimestamp { .. } => "invalid_timestamp",
        SyncError::UnsupportedDataset(_) => "unsupported_dataset",
    };
    CommandError { code: owned(code), message: e.message() }
}

/// The code a space-weather error is reported under.
pub open spec fn space_weather_code(e: SpaceWeatherError) -> Seq<char> {
    match e {
        SpaceWeatherError::Storage(_) => "storage_error"@,
        SpaceWeatherError::Network(_) => "network_error"@,
        SpaceWeatherError::Parse(_) => "parse_error"@,
    }
}

/// A space-weather error as a command reports it.
pub fn map_space_weather_err(e: SpaceWeatherError) -> (c: CommandError)
    ensures
        c.code@ == space_weather_code(e),
        c.message@ == space_weather_error_text(e),
{
    let code = match &e {
        SpaceWeatherError::Storage(_) => "storage_error",
        SpaceWeatherError::Network(_) => "network_error",
        SpaceWeatherError::Parse(_) => "parse_error",
    };
    CommandError { code: owned(code), message: e.message() }
}

/// An error reported under a chosen code with its displayed message.
pub fn map_err(code: &str, message: String) -> (c: CommandError)
    ensures
        c.code@ == code@,
        c.message == message,
{
    CommandError { code: owned(code), message }
}

/// A tracking error as a command reports it: its own code and message.
pub fn map_tracking_err(e: &TrackingError) -> (c: CommandError)
    ensures
        c.code@ == tracking_code(*e),
        c.message@ == tracking_error_text(*e),
{
    CommandError { code: owned(e.code()), message: e.message() }
}

impl From<TrackingError> for CommandError {
    fn from(e: TrackingError) -> (c: CommandError) {
        map_tracking_err(&e)
    }
}

/// The conversion builds its message text, which no spec value can name; its
/// contract is the one of `map_tracking_err`.
impl vstd::std_specs::convert::FromSpecImpl<TrackingError> for CommandError {
    open spec fn obeys_from_spec() -> bool {
        false
    }

    open spec fn from_spec(e: TrackingError) -> CommandError {
        vstd::pervasive::arbitrary()
    }
}

/// The code a profile error is reported under.
pub open spec fn profile_code(e: ProfileError) -> Seq<char> {
    match e {
        ProfileError::InvalidField(_) => "invalid_field"@,
        ProfileError::Db(_) => "storage_error"@,
        ProfileError::Json(_) => "decode_error"@,
        ProfileError::NotFound => "not_found"@,
    }
}

/// A profile error as a command reports it.
pub fn map_profile_err(e: ProfileError) -> (c: CommandError)
    ensures
        c.code@ == profile_code(e),
        c.message@ == profile_error_text(e),
{
    let code = match &e {
        ProfileError::InvalidField(_) => "invalid_field",
        ProfileError::Db(_) => "storage_error",
        ProfileError::Json(_) => "decode_error",
        ProfileError::NotFound => "not_found",
    };
    CommandError { code: owned(code), message: e.message() }
}

impl From<ProfileError> for CommandError {
    fn from(e: ProfileError) -> (c: CommandError) {
        map_profile_err(e)
    }
}

/// The conversion builds its message text, which no spec value can name; its
/// contract is the one of `map_profile_err`.
impl vstd::std_specs::convert::FromSpecImpl<ProfileError> for CommandError {
    open spec fn obeys_from_spec() -> bool {
        false
    }

    open spec fn from_spec(e: ProfileError) -> CommandError {
        vstd::pervasive::arbitrary()
    }
}

/// Rotor trackability of a pass.
#[derive(Debug, Clone, Copy, PartialEq, Eq, Structural)]
pub enum FeasibilityClass {
    /// Both axes keep up with the pass.
    Feasible,
    Slow,
    Impossible,
}

/// The label of a trackability class.
pub open spec fn feasibility_text(f: FeasibilityClass) -> Seq<char> {
    match f {
        FeasibilityClass::Feasible => "ok"@,
        FeasibilityClass::Slow => "slow"@,
        FeasibilityClass::Impossible => "impossible"@,
    }
}

/// The label of a trackability class.
pub fn feasibility_str(f: FeasibilityClass) -> (s: &'static str)
    ensures
        s@ == feasibility_text(f),
{
    match f {
        FeasibilityClass::Feasible => "ok",
        FeasibilityClass::Slow => "slow",
        FeasibilityClass::Impossible => "impossible",
    }
}

/// The label of a risk level's source.
pub open spec fn scale_source_text(s: ScaleSource) -> Seq<char> {
    match s {
        ScaleSource::Noaa => "noaa"@,
        ScaleSource::Derived => "derived"@,
        ScaleSource::Unavailable => "none"@,
    }
}

/// The label of a risk level's source.
pub fn scale_source_str(source: ScaleSource) -> (s: &'static str)
    ensures
        s@ == scale_source_text(source),
{
    match source {
        ScaleSource::Noaa => "noaa",
        ScaleSource::Derived => "derived",
        ScaleSource::Unavailable => "none",
    }
}

/// Whether automatic tracking is paused. A program keeps one such flag and
/// shares it behind its own lock, so it is not copied.
#[derive(Debug)]
pub struct AutoTrack {
    pub paused: bool,
}

impl Default for AutoTrack {
    /// Automatic tracking starts unpaused.
    fn default() -> (r: AutoTrack)
        ensures
            r.paused == false,
    {
        AutoTrack { paused: false }
    }
}

impl AutoTrack {
    /// Whether automatic tracking is paused.
    pub fn is_paused(&self) -> (r: bool)
        ensures
            r == self.paused,
    {
        self.paused
    }
}

/// A catalog list row for the interface.
#[derive(Debug, Clone, PartialEq, Eq)]
pub struct SatelliteSummaryDto {
    pub norad_id: u32,
    pub name: String,
    pub status: Option<String>,
    pub has_tle: bool,
    pub has_frequency: bool,
}

impl From<CatalogSummary> for SatelliteSummaryDto {
    fn from(s: CatalogSummary) -> (d: SatelliteSummaryDto) {
        SatelliteSummaryDto {
            norad_id: s.norad_id,
            name: s.name,
            status: s.status,
            has_tle: s.has_tle,
            has_frequency: s.has_frequency,
        }
    }
}

impl vstd::std_specs::convert::FromSpecImpl<CatalogSummary> for SatelliteSummaryDto {
    open spec fn obeys_from_spec() -> bool {
        true
    }

    open spec fn from_spec(s: CatalogSummary) -> SatelliteSummaryDto {
        SatelliteSummaryDto {
            norad_id: s.norad_id,
            name: s.name,
            status: s.status,
            has_tle: s.has_tle,
            has_frequency: s.has_frequency,
        }
    }
}

/// A catalog satellite for the interface.
#[derive(Debug, Clone, PartialEq, Eq)]
pub struct SatelliteRecordDto {
    pub norad_id: u32,
    pub name: String,
    pub status: Option<String>,
    pub launched: Option<String>,
    pub deployed: Option<String>,
    pub decayed: Option<String>,
    pub operator: Option<String>,
    pub countries: Option<String>,
    pub satnogs_id: Option<String>,
    pub updated_at: Option<String>,
}

/// The interface row of a catalog satellite, field for field.
pub open spec fn satellite_dto(s: SatelliteRecord) -> SatelliteRecordDto {
    SatelliteRecordDto {
        norad_id: s.norad_id,
        name: s.name,
        status: s.status,
        launched: s.launched,
        deployed: s.deployed,
        decayed: s.decayed,
        operator: s.operator,
        countries: s.countries,
        satnogs_id: s.satnogs_id,
        updated_at: s.updated_at,
    }
}

impl From<SatelliteRecord> for SatelliteRecordDto {
    fn from(s: SatelliteRecord) -> (d: SatelliteRecordDto) {
        SatelliteRecordDto {
            norad_id: s.norad_id,
            name: s.name,
            status: s.status,
            launched: s.launched,
            deployed: s.deployed,
            decayed: s.decayed,
            operator: s.operator,
            countries: s.countries,
            satnogs_id: s.satnogs_id,
            updated_at: s.updated_at,
        }
    }
}

impl vstd::std_specs::convert::FromSpecImpl<SatelliteRecord> for SatelliteRecordDto {
    open spec fn obeys_from_spec() -> bool {
        true
    }

    open spec fn from_spec(s: SatelliteRecord) -> SatelliteRecordDto {
        satellite_dto(s)
    }
}

/// A frequency for the interface.
#[derive(Debug, Clone, PartialEq, Eq)]
pub struct FrequencyRecordDto {
    pub norad_id: u32,
    pub uplink_low_hz: Option<i64>,
    pub uplink_high_hz: Option<i64>,
    pub downlink_low_hz: Option<i64>,
    pub downlink_high_hz: Option<i64>,
    pub mode: Option<String>,
    pub description: Option<String>,
    pub status: Option<String>,
    pub updated_at: Option<String>,
}

/// The interface row of a frequency, field for field.
pub open spec fn frequency_dto(f: FrequencyRecord) -> FrequencyRecordDto {
    FrequencyRecordDto {
        norad_id: f.norad_id,
        uplink_low_hz: f.uplink_low_hz,
        uplink_high_hz: f.uplink_high_hz,
        downlink_low_hz: f.downlink_low_hz,
        downlink_high_hz: f.downlink_high_hz,
        mode: f.mode,
        description: f.description,
        status: f.status,
        updated_at: f.updated_at,
    }
}

impl From<FrequencyRecord> for FrequencyRecordDto {
    fn from(f: FrequencyRecord) -> (d: FrequencyRecordDto) {
        FrequencyRecordDto {
            norad_id: f.norad_id,
            uplink_low_hz: f.uplink_low_hz,
            uplink_high_hz: f.uplink_high_hz,
            downlink_low_hz: f.downlink_low_hz,
            downlink_high_hz: f.downlink_high_hz,
            mode: f.mode,
            description: f.description,
            status: f.status,
            updated_at: f.updated_at,
        }
    }
}

impl vstd::std_specs::convert::FromSpecImpl<FrequencyRecord> for FrequencyRecordDto {
    open spec fn obeys_from_spec() -> bool {
        true
    }

    open spec fn from_spec(f: FrequencyRecord) -> FrequencyRecordDto {
        frequency_dto(f)
    }
}

/// A satellite with its frequencies for the interface.
#[derive(Debug, Clone)]
pub struct SatelliteDetailDto {
    pub satellite: SatelliteRecordDto,
    pub frequencies: Vec<FrequencyRecordDto>,
}

impl SatelliteDetailDto {
    /// The interface form of a satellite detail: the satellite and each
    /// frequency converted, in order.
    pub fn of(d: SatelliteDetail) -> (r: SatelliteDetailDto)
        ensures
            r.satellite == satellite_dto(d.satellite),
            r.frequencies@.len() == d.frequencies@.len(),
            forall|i: int|
                0 <= i < r.frequencies@.len() ==> #[trigger] r.frequencies@[i] == frequency_dto(
                    d.frequencies@[i],
                ),
    {
        let satellite = SatelliteRecordDto::from(d.satellite);
        let ghost source = d.frequencies@;
        let mut frequencies: Vec<FrequencyRecordDto> = Vec::new();
        let mut rest = d.frequencies;
        let ghost mut taken: int = 0;
        while rest.len() > 0
            invariant
                0 <= taken <= source.len(),
                rest@ == source.skip(taken),
                frequencies@.len() == taken,
                forall|i: int|
                    0 <= i < taken ==> #[trigger] frequencies@[i] == frequency_dto(source[i]),
            decreases rest@.len(),
        {
            let f = rest.remove(0);
            assert(f == source[taken]);
            assert(rest@ =~= source.skip(taken + 1));
            frequencies.push(FrequencyRecordDto::from(f));
            proof {
                taken = taken + 1;
            }
        }
        SatelliteDetailDto { satellite, frequencies }
    }
}

/// The catalog's sync status for the interface.
#[derive(Debug, Clone, PartialEq, Eq)]
pub struct CatalogSyncStatusDto {
    pub last_synced_at: Option<String>,
    pub is_stale: bool,
    pub stale_after_days: i64,
}

/// Progress of a catalog sync, as announced to the interface.
#[derive(Debug, Clone, PartialEq, Eq)]
pub enum CatalogSyncEvent {
    Started,
    Completed {
        fetched_at: String,
        satellites_written: usize,
        frequencies_written: usize,
        tle_written: usize,
    },
    Skipped { last_synced_at: String },
    Failed { code: String, message: String },
}

impl CatalogSyncEvent {
    /// The failure event of a command error.
    pub fn failed(e: CommandError) -> (ev: CatalogSyncEvent)
        ensures
            ev == (CatalogSyncEvent::Failed { code: e.code, message: e.message }),
    {
        CatalogSyncEvent::Failed { code: e.code, message: e.message }
    }
}

/// Days after which the catalog counts as stale.
pub const CATALOG_STALE_DAYS: i64 = 30;

/// The maximum age, in seconds, a catalog sync request uses: zero when it
/// is forced (the default), so that "sync now" always fetches; else the
/// catalog's stale window.
pub fn catalog_sync_max_age_secs(force: Option<bool>) -> (s: i64)
    ensures
        s == (if force == Some(false) {
            CATALOG_STALE_DAYS * 86400
        } else {
            0
        }),
{
    match force {
        Some(false) => CATALOG_STALE_DAYS * 86400,
        _ => 0,
    }
}

/// The RFC 3339 text of an instant in an event; an instant chrono cannot
/// represent (beyond its range of some 262,000 years) is written empty.
pub open spec fn event_stamp(t: UtcInstant) -> Seq<char> {
    match rfc3339_text(t.secs as int, t.nanos as int) {
        Some(s) => s,
        None => Seq::empty(),
    }
}

fn stamp_text(t: UtcInstant) -> (s: String)
    ensures
        s@ == event_stamp(t),
{
    match format_rfc3339(t) {
        Some(s) => s,
        None => String::new(),
    }
}

/// What follows the catalog leg of a catalog sync.
#[derive(Debug, Clone, PartialEq, Eq)]
pub enum CatalogSyncNext {
    /// The catalog was written: force a TLE sync, then finish with these
    /// figures.
    RefreshTle { fetched_at: UtcInstant, satellites_written: usize, frequencies_written: usize },
    /// Announce this event; the sync is over.
    Report(CatalogSyncEvent),
}

/// The code of a sync leg that returned another dataset's outcome.
pub open spec fn unexpected_outcome_code() -> Seq<char> {
    "unexpected_sync_outcome"@
}

/// The message of a sync leg that returned another dataset's outcome.
pub open spec fn unexpected_outcome_text() -> Seq<char> {
    "catalog sync returned a non-catalog outcome"@
}

/// The decision after the catalog leg of a catalog sync: a performed sync
/// goes on to a forced TLE sync; a skipped one is announced with its stamp;
/// any other outcome is an unexpected-outcome failure; an error is
/// announced as a failure with its code and message.
pub fn catalog_sync_next(catalog: Result<SyncOutcome, SyncError>) -> (n: CatalogSyncNext)
    ensures
        match catalog {
            Ok(SyncOutcome::Performed { fetched_at, satellites_written, frequencies_written, .. }) =>
                n == (CatalogSyncNext::RefreshTle {
                fetched_at,
                satellites_written,
                frequencies_written,
            }),
            Ok(SyncOutcome::Skipped { last_synced_at, .. }) => (n matches CatalogSyncNext::Report(
                CatalogSyncEvent::Skipped { last_synced_at: t },
            ) && t@ == event_stamp(last_synced_at)),
            Ok(_) => (n matches CatalogSyncNext::Report(CatalogSyncEvent::Failed { code, message })
                && code@ == unexpected_outcome_code() && message@ == unexpected_outcome_text()),
            Err(e) => (n matches CatalogSyncNext::Report(CatalogSyncEvent::Failed { code, message })
                && code@ == sync_code(e) && message@ == sync_error_text(e)),
        },
{
    match catalog {
        Ok(SyncOutcome::Performed { fetched_at, satellites_written, frequencies_written, .. }) => {
            CatalogSyncNext::RefreshTle { fetched_at, satellites_written, frequencies_written }
        },
        Ok(SyncOutcome::Skipped { last_synced_at, .. }) => CatalogSyncNext::Report(
            CatalogSyncEvent::Skipped { last_synced_at: stamp_text(last_synced_at) },
        ),
        Ok(_) => CatalogSyncNext::Report(
            CatalogSyncEvent::Failed {
                code: owned("unexpected_sync_outcome"),
                message: owned("catalog sync returned a non-catalog outcome"),
            },
        ),
        Err(e) => {
            let c = map_sync_err(e);
            CatalogSyncNext::Report(CatalogSyncEvent::Failed { code: c.code, message: c.message })
        },
    }
}

/// The message of a TLE refresh that failed after the catalog was written.
pub open spec fn tle_refresh_failed_text(e: SyncError) -> Seq<char> {
    "catalog updated, TLE refresh failed: "@ + sync_error_text(e)
}

/// The end of a catalog sync after its forced TLE sync: the completion event
/// with the catalog figures and the element sets written (none when the TLE
/// leg returned another outcome), or, when the TLE leg failed, a failure
/// that says the catalog was kept. Either way the element-set cache must be
/// dropped, since catalog rows were rewritten (`r.1`).
pub fn catalog_sync_finish(
    fetched_at: UtcInstant,
    satellites_written: usize,
    frequencies_written: usize,
    tle: Result<SyncOutcome, SyncError>,
) -> (r: (CatalogSyncEvent, bool))
    ensures
        r.1,
        match tle {
            Ok(o) => (r.0 matches CatalogSyncEvent::Completed {
                fetched_at: f,
                satellites_written: s,
                frequencies_written: q,
                tle_written: t,
            } && f@ == event_stamp(fetched_at) && s == satellites_written && q
                == frequencies_written && t == (match o {
                SyncOutcome::TlePerformed { tle_written, .. } => tle_written,
                _ => 0,
            })),
            Err(e) => (r.0 matches CatalogSyncEvent::Failed { code, message } && code@ == sync_code(e)
                && message@ == tle_refresh_failed_text(e)),
        },
{
    match tle {
        Ok(o) => {
            let tle_written = match o {
                SyncOutcome::TlePerformed { tle_written, .. } => tle_written,
                _ => 0,
            };
            (
                CatalogSyncEvent::Completed {
                    fetched_at: stamp_text(fetched_at),
                    satellites_written,
                    frequencies_written,
                    tle_written,
                },
                true,
            )
        },
        Err(e) => {
            let c = map_sync_err(e);
            let message = concat("catalog updated, TLE refresh failed: ", c.message.as_str());
            (CatalogSyncEvent::Failed { code: c.code, message }, true)
        },
    }
}

/// A host serial port for the interface.
#[derive(Debug, Clone, PartialEq, Eq)]
pub struct SerialPortDto {
    pub name: String,
    pub kind: String,
}

impl From<SerialPortSummary> for SerialPortDto {
    fn from(p: SerialPortSummary) -> (d: SerialPortDto) {
        SerialPortDto { name: p.name, kind: p.kind }
    }
}

impl vstd::std_specs::convert::FromSpecImpl<SerialPortSummary> for SerialPortDto {
    open spec fn obeys_from_spec() -> bool {
        true
    }

    open spec fn from_spec(p: SerialPortSummary) -> SerialPortDto {
        SerialPortDto { name: p.name, kind: p.kind }
    }
}

/// A trackable satellite for the interface.
#[derive(Debug, Clone, PartialEq, Eq)]
pub struct SatelliteSummary {
    pub norad_id: u32,
    pub name: String,
}

} // verus!
