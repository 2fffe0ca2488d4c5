//! Tracking state: the satellite being tracked, how it is remembered across
//! launches, and the errors a tracking snapshot reports.
use vstd::prelude::*;
use crate::text::{chars_of, concat, decimal, owned, parse_int, parse_int_spec, push_decimal};
use crate::tle::{tle_error_text, TleError};

verus! {

/// The metadata key remembering the tracked satellite.
pub const ACTIVE_NORAD_KEY: &'static str = "active_norad";

/// The one slot naming the satellite being tracked, if any. It is not
/// copied: every part of a program that tracks must see the same slot, so a
/// program shares a single value behind its own lock (the command-line
/// program holds it in an `Arc<Mutex<TrackingState>>`), and a change made
/// through any holder of that lock is seen by all of them.
#[derive(Debug)]
pub struct TrackingState {
    pub active: Option<u32>,
}

impl TrackingState {
    /// Nothing tracked.
    pub fn new() -> (s: TrackingState)
        ensures
            s.active is None,
    {
        TrackingState { active: None }
    }

    /// Tracks `norad`, or nothing.
    pub fn set_active(&mut self, norad: Option<u32>)
        ensures
            final(self).active == norad,
    {
        self.active = norad;
    }

    /// The tracked satellite.
    pub fn active(&self) -> (r: Option<u32>)
        ensures
            r == self.active,
    {
        self.active
    }
}

impl Default for TrackingState {
    fn default() -> (s: TrackingState)
        ensures
            s.active is None,
    {
        TrackingState::new()
    }
}

/// What the tracked satellite is stored as: its NORAD id in decimal, or
/// `null`.
pub open spec fn active_text(norad: Option<u32>) -> Seq<char> {
    match norad {
        Some(n) => decimal(n as nat),
        None => "null"@,
    }
}

/// The stored text of the tracked satellite.
pub fn active_norad_value(norad: Option<u32>) -> (s: String)
    ensures
        s@ == active_text(norad),
{
    match norad {
        Some(n) => {
            let mut s = String::new();
            push_decimal(&mut s, n as u64);
            s
        },
        None => owned("null"),
    }
}

/// What a stored text says is tracked: `null` is nothing, a valid `u32` is
/// that satellite, anything else is nothing.
pub open spec fn stored_active(s: Seq<char>) -> Option<u32> {
    if s == "null"@ {
        None
    } else {
        match parse_int_spec(s, 0, u32::MAX as int, false) {
            Ok(v) => Some(v as u32),
            Err(_) => None,
        }
    }
}

/// Reads the stored text of the tracked satellite.
pub fn parse_active_norad(s: &str) -> (r: Option<u32>)
    ensures
        r == stored_active(s@),
{
    if crate::text::same_text(s, "null") {
        return None;
    }
    let chars = chars_of(s);
    match parse_int(&chars, 0, 4294967295, false) {
        Ok(v) => Some(v as u32),
        Err(_) => None,
    }
}

/// Failure of a tracking snapshot.
#[derive(Debug)]
pub enum TrackingError {
    NoLocation,
    TleNotFound(u32),
    /// The stored location could not be used; carries its message.
    Location(String),
    Tle(TleError),
    /// Propagation failed; carries its message.
    Orbit(String),
    NotFinite,
    /// The storage layer failed; carries its message.
    Storage(String),
}

/// The code a tracking error is reported under.
pub open spec fn tracking_code(e: TrackingError) -> Seq<char> {
    match e {
        TrackingError::NoLocation => "no_location"@,
        TrackingError::TleNotFound(_) => "tle_not_found"@,
        TrackingError::Location(_) => "location_error"@,
        TrackingError::Tle(_) => "tle_error"@,
        TrackingError::Orbit(_) => "orbit_error"@,
        TrackingError::NotFinite => "not_finite"@,
        TrackingError::Storage(_) => "storage_error"@,
    }
}

/// The message a tracking error displays.
pub open spec fn tracking_error_text(e: TrackingError) -> Seq<char> {
    match e {
        TrackingError::NoLocation => "no location configured"@,
        TrackingError::TleNotFound(n) => "tle not found for norad "@ + decimal(n as nat),
        TrackingError::Location(s) => "location error: "@ + s@,
        TrackingError::Tle(t) => "tle error: "@ + tle_error_text(t),
        TrackingError::Orbit(s) => "orbit error: "@ + s@,
        TrackingError::NotFinite => "non-finite snapshot value"@,
        TrackingError::Storage(s) => "storage error: "@ + s@,
    }
}

impl TrackingError {
    /// The code this error is reported under.
    pub fn code(&self) -> (s: &'static str)
        ensures
            s@ == tracking_code(*self),
    {
        match self {
            TrackingError::NoLocation => "no_location",
            TrackingError::TleNotFound(_) => "tle_not_found",
            TrackingError::Location(_) => "location_error",
            TrackingError::Tle(_) => "tle_error",
            TrackingError::Orbit(_) => "orbit_error",
            TrackingError::NotFinite => "not_finite",
            TrackingError::Storage(_) => "storage_error",
        }
    }

    /// The message this error displays.
    pub fn message(&self) -> (s: String)
        ensures
            s@ == tracking_error_text(*self),
    {
        match self {
            TrackingError::NoLocation => owned("no location configured"),
            TrackingError::TleNotFound(n) => {
                let mut m = owned("tle not found for norad ");
                push_decimal(&mut m, *n as u64);
                m
            },
            TrackingError::Location(s) => concat("location error: ", s.as_str()),
            TrackingError::Tle(t) => concat("tle error: ", t.message().as_str()),
            TrackingError::Orbit(s) => concat("orbit error: ", s.as_str()),
            TrackingError::NotFinite => owned("non-finite snapshot value"),
            TrackingError::Storage(s) => concat("storage error: ", s.as_str()),
        }
    }
}

/// The event announcing a failed tracking snapshot.
#[derive(Debug, Clone, PartialEq, Eq)]
pub struct TrackingErrorEvent {
    pub norad_id: u32,
    pub code: String,
    pub message: String,
}

impl TrackingErrorEvent {
    /// The event for a snapshot of `norad_id` that failed with `e`.
    pub fn of(norad_id: u32, e: &TrackingError) -> (ev: TrackingErrorEvent)
        ensures
            ev.norad_id == norad_id,
            ev.code@ == tracking_code(*e),
            ev.message@ == tracking_error_text(*e),
    {
        TrackingErrorEvent { norad_id, code: owned(e.code()), message: e.message() }
    }
}

/// The stored text of a tracked satellite reads back as that satellite.
pub proof fn active_norad_round_trip(norad: Option<u32>)
    ensures
        stored_active(active_text(norad)) == norad,
{
    if let Some(n) = norad {
        crate::text::lemma_decimal_parses(n as nat, u32::MAX as int);
        reveal_strlit("null");
        assert(active_text(norad)[0] != "null"@[0]);
    }
}

} // verus!
