//! Orbit propagation failures and pass classes (propagation itself runs
//! outside, on floating point).
use vstd::prelude::*;
use crate::text::{concat, owned};

verus! {

/// Failure of orbit propagation.
#[derive(Debug, Clone, PartialEq, Eq)]
pub enum OrbitError {
    Sgp4Init(String),
    Sgp4Propagate(String),
    NotFinite,
}

/// The message an orbit error displays.
pub open spec fn orbit_error_text(e: OrbitError) -> Seq<char> {
    match e {
        OrbitError::Sgp4Init(s) => "sgp4 initialization failed: "@ + s@,
        OrbitError::Sgp4Propagate(s) => "sgp4 propagation failed: "@ + s@,
        OrbitError::NotFinite => "non-finite value in orbital computation"@,
    }
}

impl OrbitError {
    /// The message this error displays.
    pub fn message(&self) -> (s: String)
        ensures
            s@ == orbit_error_text(*self),
    {
        match self {
            OrbitError::Sgp4Init(s) => concat("sgp4 initialization failed: ", s.as_str()),
            OrbitError::Sgp4Propagate(s) => concat("sgp4 propagation failed: ", s.as_str()),
            OrbitError::NotFinite => owned("non-finite value in orbital computation"),
        }
    }
}

/// How good a pass is, by its maximum elevation.
#[derive(Debug, Clone, Copy, PartialEq, Eq, Structural)]
pub enum PassClassification {
    Overhead,
    Good,
    Marginal,
    Poor,
}

} // verus!
