//! Satellite catalog: records, the SatNOGS normalization and completeness
//! rules, and the bundled snapshot's seeding rules.
use vstd::prelude::*;
use crate::text::{concat, owned, push_decimal, push_str};

pub mod satnogs;
pub mod snapshot;

verus! {

/// A catalog satellite.
#[derive(Debug, Clone, PartialEq, Eq)]
pub struct SatelliteRecord {
    pub norad_id: u32,
    pub name: String,
    pub status: Option<String>,
    pub launched: Option<String>,
    pub deployed: Option<String>,
    pub decayed: Option<String>,
    pub operator: Option<String>,
    pub countries: Option<String>,
    pub satnogs_id: Option<String>,
    pub updated_at: Option<String>,
}

/// A transmitter of a catalog satellite.
#[derive(Debug, Clone, PartialEq, Eq)]
pub struct FrequencyRecord {
    pub norad_id: u32,
    pub uplink_low_hz: Option<i64>,
    pub uplink_high_hz: Option<i64>,
    pub downlink_low_hz: Option<i64>,
    pub downlink_high_hz: Option<i64>,
    pub mode: Option<String>,
    pub description: Option<String>,
    pub status: Option<String>,
    pub updated_at: Option<String>,
}

/// A catalog list row.
#[derive(Debug, Clone, PartialEq, Eq)]
pub struct SatelliteSummary {
    pub norad_id: u32,
    pub name: String,
    pub status: Option<String>,
    pub has_tle: bool,
    pub has_frequency: bool,
}

/// A satellite with its frequencies, for the detail view.
#[derive(Debug, Clone)]
pub struct SatelliteDetail {
    pub satellite: SatelliteRecord,
    pub frequencies: Vec<FrequencyRecord>,
}

/// Failure of catalog fetching, seeding or storage.
#[derive(Debug, Clone, PartialEq, Eq)]
pub enum CatalogError {
    /// The storage layer failed; carries its message.
    Storage(String),
    SnapshotParse(String),
    SnapshotSchemaMismatch { expected: u32, actual: u32 },
    SnapshotIo(String),
    Network(String),
    Parse(String),
}

/// The message a catalog error displays.
pub open spec fn catalog_error_text(e: CatalogError) -> Seq<char> {
    match e {
        CatalogError::Storage(s) => "storage error: "@ + s@,
        CatalogError::SnapshotParse(s) => "snapshot parse error: "@ + s@,
        CatalogError::SnapshotSchemaMismatch { expected, actual } => "snapshot schema mismatch: expected version "@
            + crate::text::decimal(expected as nat) + ", got "@ + crate::text::decimal(actual as nat),
        CatalogError::SnapshotIo(s) => "snapshot io error: "@ + s@,
        CatalogError::Network(s) => "network error: "@ + s@,
        CatalogError::Parse(s) => "parse error: "@ + s@,
    }
}

impl CatalogError {
    /// The message this error displays.
    pub fn message(&self) -> (s: String)
        ensures
            s@ == catalog_error_text(*self),
    {
        match self {
            CatalogError::Storage(s) => concat("storage error: ", s.as_str()),
            CatalogError::SnapshotParse(s) => concat("snapshot parse error: ", s.as_str()),
            CatalogError::SnapshotSchemaMismatch { expected, actual } => {
                let mut m = owned("snapshot schema mismatch: expected version ");
                push_decimal(&mut m, *expected as u64);
                push_str(&mut m, ", got ");
                push_decimal(&mut m, *actual as u64);
                m
            },
            CatalogError::SnapshotIo(s) => concat("snapshot io error: ", s.as_str()),
            CatalogError::Network(s) => concat("network error: ", s.as_str()),
            CatalogError::Parse(s) => concat("parse error: ", s.as_str()),
        }
    }
}

} // verus!
