//! SatNOGS DB catalog: normalization of raw satellites and transmitters, the
//! completeness floor of a full dump, and the retry policy of its fetches.
use vstd::prelude::*;
use crate::text::{decimal, owned, push_decimal, push_str};
use super::{CatalogError, FrequencyRecord, SatelliteRecord};

verus! {

/// Fewest usable satellites a full SatNOGS dump may hold.
pub const CATALOG_MIN_SATELLITE_RECORDS: usize = 1000;
/// Fewest usable transmitters a full SatNOGS dump may hold.
pub const CATALOG_MIN_FREQUENCY_RECORDS: usize = 1000;
/// First retry delay.
pub const BACKOFF_BASE_MS: u64 = 1000;
/// Retries after the first attempt.
pub const BACKOFF_MAX_RETRIES: u32 = 5;
/// Largest response body accepted.
pub const MAX_RESPONSE_BYTES: usize = 33554432;

/// Normalized records of one catalog fetch.
#[derive(Debug, Clone)]
pub struct CatalogFetch {
    pub satellites: Vec<SatelliteRecord>,
    pub frequencies: Vec<FrequencyRecord>,
}

/// The fields of a SatNOGS satellite that the catalog keeps.
#[derive(Debug, Clone)]
pub struct RawSatellite {
    pub norad_cat_id: Option<i64>,
    pub name: Option<String>,
    pub status: Option<String>,
    pub launched: Option<String>,
    pub deployed: Option<String>,
    pub decayed: Option<String>,
    pub operator: Option<String>,
    pub countries: Option<String>,
    pub sat_id: Option<String>,
    pub updated: Option<String>,
}

/// The fields of a SatNOGS transmitter that the catalog keeps.
#[derive(Debug, Clone)]
pub struct RawTransmitter {
    pub norad_cat_id: Option<i64>,
    pub uplink_low: Option<i64>,
    pub uplink_high: Option<i64>,
    pub downlink_low: Option<i64>,
    pub downlink_high: Option<i64>,
    pub mode: Option<String>,
    pub description: Option<String>,
    pub status: Option<String>,
    pub updated: Option<String>,
}

/// Whether a raw NORAD id is usable: present, positive and within `u32`.
pub open spec fn usable_norad(id: Option<i64>) -> bool {
    id matches Some(n) && 0 < n <= u32::MAX
}

/// Whether `rec` is the catalog record of `raw`: its id, its name (empty when
/// missing) and its other fields as they came.
pub open spec fn satellite_from(raw: RawSatellite, rec: SatelliteRecord) -> bool {
    &&& rec.norad_id == raw.norad_cat_id->Some_0
    &&& rec.name@ == match raw.name {
        Some(n) => n@,
        None => Seq::<char>::empty(),
    }
    &&& rec.status == raw.status
    &&& rec.launched == raw.launched
    &&& rec.deployed == raw.deployed
    &&& rec.decayed == raw.decayed
    &&& rec.operator == raw.operator
    &&& rec.countries == raw.countries
    &&& rec.satnogs_id == raw.sat_id
    &&& rec.updated_at == raw.updated
}

/// Whether `rec` is the frequency record of `raw`, field for field.
pub open spec fn frequency_from(raw: RawTransmitter, rec: FrequencyRecord) -> bool {
    &&& rec.norad_id == raw.norad_cat_id->Some_0
    &&& rec.uplink_low_hz == raw.uplink_low
    &&& rec.uplink_high_hz == raw.uplink_high
    &&& rec.downlink_low_hz == raw.downlink_low
    &&& rec.downlink_high_hz == raw.downlink_high
    &&& rec.mode == raw.mode
    &&& rec.description == raw.description
    &&& rec.status == raw.status
    &&& rec.updated_at == raw.updated
}

impl RawSatellite {
    /// The catalog record of a satellite with a usable NORAD id; a missing
    /// name becomes empty.
    pub fn normalize(self) -> (r: Option<SatelliteRecord>)
        ensures
            !usable_norad(self.norad_cat_id) ==> r is None,
            usable_norad(self.norad_cat_id) ==> (r matches Some(rec) && satellite_from(self, rec)),
    {
        let norad = match self.norad_cat_id {
            Some(n) => n,
            None => {
                return None;
            },
        };
        if norad <= 0 || norad > 4294967295 {
            return None;
        }
        let name = match self.name {
            Some(n) => n,
            None => String::new(),
        };
        Some(
            SatelliteRecord {
                norad_id: norad as u32,
                name,
                status: self.status,
                launched: self.launched,
                deployed: self.deployed,
                decayed: self.decayed,
                operator: self.operator,
                countries: self.countries,
                satnogs_id: self.sat_id,
                updated_at: self.updated,
            },
        )
    }
}

impl RawTransmitter {
    /// The frequency record of a transmitter with a usable NORAD id.
    pub fn normalize(self) -> (r: Option<FrequencyRecord>)
        ensures
            !usable_norad(self.norad_cat_id) ==> r is None,
            usable_norad(self.norad_cat_id) ==> (r matches Some(rec) && frequency_from(self, rec)),
    {
        let norad = match self.norad_cat_id {
            Some(n) => n,
            None => {
                return None;
            },
        };
        if norad <= 0 || norad > 4294967295 {
            return None;
        }
        Some(
            FrequencyRecord {
                norad_id: norad as u32,
                uplink_low_hz: self.uplink_low,
                uplink_high_hz: self.uplink_high,
                downlink_low_hz: self.downlink_low,
                downlink_high_hz: self.downlink_high,
                mode: self.mode,
                description: self.description,
                status: self.status,
                updated_at: self.updated,
            },
        )
    }
}

/// The message for a dump with too few usable satellites.
pub open spec fn too_few_satellites(count: nat) -> Seq<char> {
    "SatNOGS response contained only "@ + decimal(count)
        + " usable satellites; expected at least 1000"@
}

/// The message for a dump with too few usable transmitters.
pub open spec fn too_few_transmitters(count: nat) -> Seq<char> {
    "SatNOGS response contained only "@ + decimal(count)
        + " usable transmitters; expected at least 1000"@
}

/// Accepts a fetch holding at least the completeness floor of satellites,
/// then of transmitters; a smaller dump is taken for a truncated response.
pub fn validate_catalog_fetch(fetch: CatalogFetch) -> (r: Result<CatalogFetch, CatalogError>)
    ensures
        fetch.satellites@.len() < CATALOG_MIN_SATELLITE_RECORDS ==> (r matches Err(
            CatalogError::Parse(m),
        ) && m@ == too_few_satellites(fetch.satellites@.len())),
        fetch.satellites@.len() >= CATALOG_MIN_SATELLITE_RECORDS && fetch.frequencies@.len()
            < CATALOG_MIN_FREQUENCY_RECORDS ==> (r matches Err(CatalogError::Parse(m)) && m@
            == too_few_transmitters(fetch.frequencies@.len())),
        fetch.satellites@.len() >= CATALOG_MIN_SATELLITE_RECORDS && fetch.frequencies@.len()
            >= CATALOG_MIN_FREQUENCY_RECORDS ==> r == Ok::<CatalogFetch, CatalogError>(fetch),
{
    if fetch.satellites.len() < CATALOG_MIN_SATELLITE_RECORDS {
        let mut m = owned("SatNOGS response contained only ");
        push_decimal(&mut m, fetch.satellites.len() as u64);
        push_str(&mut m, " usable satellites; expected at least 1000");
        assert(m@ =~= too_few_satellites(fetch.satellites@.len()));
        return Err(CatalogError::Parse(m));
    }
    if fetch.frequencies.len() < CATALOG_MIN_FREQUENCY_RECORDS {
        let mut m = owned("SatNOGS response contained only ");
        push_decimal(&mut m, fetch.frequencies.len() as u64);
        push_str(&mut m, " usable transmitters; expected at least 1000");
        assert(m@ =~= too_few_transmitters(fetch.frequencies@.len()));
        return Err(CatalogError::Parse(m));
    }
    Ok(fetch)
}

/// How an HTTP response of a catalog fetch is treated.
#[derive(Debug, Clone, Copy, PartialEq, Eq, Structural)]
pub enum ResponseClass {
    /// A success status: read the body.
    Success,
    /// Too many requests or a server error: retry after a backoff.
    Retryable,
    /// Any other status: fail at once.
    Permanent,
}

/// The class of an HTTP status code.
pub open spec fn status_class(status: u16) -> ResponseClass {
    if 200 <= status <= 299 {
        ResponseClass::Success
    } else if status == 429 || 500 <= status <= 599 {
        ResponseClass::Retryable
    } else {
        ResponseClass::Permanent
    }
}

/// Classifies an HTTP status code of a catalog fetch.
pub fn classify_status(status: u16) -> (c: ResponseClass)
    ensures
        c == status_class(status),
{
    if 200 <= status && status <= 299 {
        ResponseClass::Success
    } else if status == 429 || (500 <= status && status <= 599) {
        ResponseClass::Retryable
    } else {
        ResponseClass::Permanent
    }
}

/// Refuses a response body larger than the cap, for good (a retry would
/// download it again).
pub fn check_body_size(len: u64) -> (r: Result<(), CatalogError>)
    ensures
        len <= MAX_RESPONSE_BYTES ==> r is Ok,
        len > MAX_RESPONSE_BYTES ==> (r matches Err(CatalogError::Network(m)) && m@
            == "response too large: "@ + decimal(len as nat) + " bytes"@),
{
    if len > MAX_RESPONSE_BYTES as u64 {
        let mut m = owned("response too large: ");
        push_decimal(&mut m, len);
        push_str(&mut m, " bytes");
        return Err(CatalogError::Network(m));
    }
    Ok(())
}

/// The next retry delay: twice the current one, saturating.
pub fn next_delay(delay_ms: u64) -> (r: u64)
    ensures
        r == if delay_ms * 2 > u64::MAX {
            u64::MAX as int
        } else {
            delay_ms * 2
        },
{
    match delay_ms.checked_mul(2) {
        Some(d) => d,
        None => u64::MAX,
    }
}

/// Whether another attempt follows attempt `attempt` (counting from zero)
/// after a retryable failure.
pub fn retries_after(attempt: u32) -> (r: bool)
    ensures
        r == (attempt < BACKOFF_MAX_RETRIES),
{
    attempt < BACKOFF_MAX_RETRIES
}

/// The error after every retry failed, carrying the last failure.
pub fn exhausted_error(last_error: Option<String>) -> (e: CatalogError)
    ensures
        e matches CatalogError::Network(m) && m@ == "exhausted 5 retries; last error: "@ + match last_error {
            Some(t) => t@,
            None => "unknown"@,
        },
{
    let mut m = owned("exhausted 5 retries; last error: ");
    match last_error {
        Some(t) => push_str(&mut m, t.as_str()),
        None => push_str(&mut m, "unknown"),
    }
    CatalogError::Network(m)
}

} // verus!
