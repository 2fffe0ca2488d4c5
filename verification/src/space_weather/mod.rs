//! Space weather: the NOAA G-scale risk assessment and the normalization of
//! NOAA SWPC payload texts.
use vstd::prelude::*;
use crate::text::concat;

pub mod fetcher;
pub mod risk_model;

verus! {

/// Failure of space-weather fetching, parsing or storage.
#[derive(Debug, Clone, PartialEq, Eq)]
pub enum SpaceWeatherError {
    /// The storage layer failed; carries its message.
    Storage(String),
    Network(String),
    Parse(String),
}

/// The message a space-weather error displays.
pub open spec fn space_weather_error_text(e: SpaceWeatherError) -> Seq<char> {
    match e {
        SpaceWeatherError::Storage(s) => "storage error: "@ + s@,
        SpaceWeatherError::Network(s) => "network error: "@ + s@,
        SpaceWeatherError::Parse(s) => "parse error: "@ + s@,
    }
}

impl SpaceWeatherError {
    /// The message this error displays.
    pub fn message(&self) -> (s: String)
        ensures
            s@ == space_weather_error_text(*self),
    {
        match self {
            SpaceWeatherError::Storage(s) => concat("storage error: ", s.as_str()),
            SpaceWeatherError::Network(s) => concat("network error: ", s.as_str()),
            SpaceWeatherError::Parse(s) => concat("parse error: ", s.as_str()),
        }
    }
}

} // verus!
