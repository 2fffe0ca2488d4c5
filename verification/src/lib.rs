//! Verified core of a satellite ground-station assistant: two-line element
//! validation and parsing, rotor wire-protocol templates, AX.25 telemetry
//! decoding, catalog normalization, space-weather risk and sync scheduling.
use vstd::prelude::*;

pub mod analysis;
pub mod antenna;
pub mod commands;
pub mod location;
pub mod orbit;
pub mod profile;
pub mod radio;
pub mod rotor;
pub mod satellite;
pub mod space_weather;
pub mod sync;
pub mod telemetry;
pub mod text;
pub mod time;
pub mod tracking;
pub mod tle;

verus! {

} // verus!
