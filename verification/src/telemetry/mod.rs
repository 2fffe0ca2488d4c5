//! SatNOGS telemetry: frame records, AX.25 address decoding and the
//! normalization of fetched telemetry rows.
use vstd::prelude::*;

pub mod decision;
pub mod decoder;
pub mod fetcher;

verus! {

/// Failure of telemetry fetching, parsing or storage.
#[derive(Debug)]
pub enum TelemetryError {
    Storage(String),
    Network(String),
    Parse(String),
    AuthRequired,
}

/// An observation to store.
#[derive(Debug, Clone, PartialEq, Eq)]
pub struct TelemetryObservationInput {
    pub source: String,
    pub external_id: String,
    pub norad_id: i64,
    pub satellite_name: Option<String>,
    pub start_time: String,
    pub end_time: Option<String>,
    pub status: Option<String>,
    pub frame_count: i64,
    pub fetched_at: String,
}

/// A stored observation.
#[derive(Debug, Clone, PartialEq, Eq)]
pub struct TelemetryObservationRow {
    pub id: i64,
    pub source: String,
    pub external_id: String,
    pub norad_id: i64,
    pub satellite_name: Option<String>,
    pub start_time: String,
    pub end_time: Option<String>,
    pub status: Option<String>,
    pub frame_count: i64,
    pub fetched_at: String,
}

/// A frame to store.
#[derive(Debug, Clone, PartialEq, Eq)]
pub struct TelemetryFrameInput {
    pub source: String,
    pub external_id: String,
    pub observation_id: Option<i64>,
    pub norad_id: i64,
    pub received_at: String,
    pub frame_hex: String,
    pub decoded_callsign: Option<String>,
    pub payload_text: Option<String>,
    pub created_at: String,
}

/// A stored frame.
#[derive(Debug, Clone, PartialEq, Eq)]
pub struct TelemetryFrameRow {
    pub id: i64,
    pub source: String,
    pub external_id: String,
    pub observation_id: Option<i64>,
    pub norad_id: i64,
    pub received_at: String,
    pub frame_hex: String,
    pub decoded_callsign: Option<String>,
    pub payload_text: Option<String>,
    pub created_at: String,
}

} // verus!
