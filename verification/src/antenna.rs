//! Antenna polarization and profile errors.
use vstd::prelude::*;
use crate::text::concat;

verus! {

/// Antenna polarization.
#[derive(Debug, Clone, Copy, PartialEq, Eq, Structural)]
pub enum Polarization {
    Lhcp,
    Rhcp,
    LinearH,
    LinearV,
}

impl Default for Polarization {
    fn default() -> (p: Polarization)
        ensures
            p == Polarization::Lhcp,
    {
        Polarization::Lhcp
    }
}

/// An antenna profile field out of range.
#[derive(Debug, Clone, PartialEq, Eq)]
pub enum AntennaError {
    InvalidField(String),
}

/// The message an antenna error displays.
pub open spec fn antenna_error_text(e: AntennaError) -> Seq<char> {
    match e {
        AntennaError::InvalidField(s) => "invalid antenna field "@ + s@,
    }
}

impl AntennaError {
    /// The message this error displays.
    pub fn message(&self) -> (s: String)
        ensures
            s@ == antenna_error_text(*self),
    {
        match self {
            AntennaError::InvalidField(s) => concat("invalid antenna field ", s.as_str()),
        }
    }
}

} // verus!
