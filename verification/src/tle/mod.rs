//! Two-line element sets: validation, parsing, CelesTrak groups and the
//! in-memory cache state.
use vstd::prelude::*;
use crate::text::{concat, decimal, owned, push_char, push_decimal, push_str};

pub mod cache;
pub mod fetcher;
pub mod parser;
pub mod repo;
pub mod validator;

pub use cache::TleCache;

verus! {

/// One named element set whose lines passed validation. The epoch is kept
/// as its full year and the day-of-year column text (fractional days).
#[derive(Debug)]
pub struct TleRecord {
    pub norad_id: u32,
    pub name: String,
    pub line1: String,
    pub line2: String,
    pub epoch_year: i32,
    pub epoch_day: String,
}

/// Failure of TLE validation, parsing or refresh.
#[derive(Debug)]
pub enum TleError {
    InvalidLineLength(usize),
    InvalidLineNumber { expected: u8, found: char },
    ChecksumMismatch { line: u8, expected: u8, computed: u8 },
    NoradIdMismatch,
    InvalidField { field: String, message: String },
    InvalidEpoch(String),
    NotFinite,
    Storage(String),
    Network(String),
    InvalidCelestrakData(String),
}

/// The message a TLE error displays.
pub open spec fn tle_error_text(e: TleError) -> Seq<char> {
    match e {
        TleError::InvalidLineLength(n) => "invalid line length: expected 69, got "@ + decimal(
            n as nat,
        ),
        TleError::InvalidLineNumber { expected, found } => "invalid line number: line "@ + decimal(
            expected as nat,
        ) + " expected, found '"@ + seq![found] + "'"@,
        TleError::ChecksumMismatch { line, expected, computed } => "checksum mismatch on line "@
            + decimal(line as nat) + ": expected "@ + decimal(expected as nat) + ", computed "@
            + decimal(computed as nat),
        TleError::NoradIdMismatch => "norad id mismatch between line1 and line2"@,
        TleError::InvalidField { field, message } => "invalid numeric field '"@ + field@ + "': "@
            + message@,
        TleError::InvalidEpoch(s) => "invalid epoch: "@ + s@,
        TleError::NotFinite => "non-finite value encountered"@,
        TleError::Storage(s) => "storage error: "@ + s@,
        TleError::Network(s) => "network error: "@ + s@,
        TleError::InvalidCelestrakData(s) => "invalid CelesTrak data: "@ + s@,
    }
}

impl TleError {
    /// The message this error displays.
    pub fn message(&self) -> (s: String)
        ensures
            s@ == tle_error_text(*self),
    {
        match self {
            TleError::InvalidLineLength(n) => {
                let mut m = owned("invalid line length: expected 69, got ");
                push_decimal(&mut m, *n as u64);
                m
            },
            TleError::InvalidLineNumber { expected, found } => {
                let mut m = owned("invalid line number: line ");
                push_decimal(&mut m, *expected as u64);
                push_str(&mut m, " expected, found '");
                push_char(&mut m, *found);
                push_str(&mut m, "'");
                m
            },
            TleError::ChecksumMismatch { line, expected, computed } => {
                let mut m = owned("checksum mismatch on line ");
                push_decimal(&mut m, *line as u64);
                push_str(&mut m, ": expected ");
                push_decimal(&mut m, *expected as u64);
                push_str(&mut m, ", computed ");
                push_decimal(&mut m, *computed as u64);
                m
            },
            TleError::NoradIdMismatch => owned("norad id mismatch between line1 and line2"),
            TleError::InvalidField { field, message } => {
                let mut m = owned("invalid numeric field '");
                push_str(&mut m, field.as_str());
                push_str(&mut m, "': ");
                push_str(&mut m, message.as_str());
                m
            },
            TleError::InvalidEpoch(s) => concat("invalid epoch: ", s.as_str()),
            TleError::NotFinite => owned("non-finite value encountered"),
            TleError::Storage(s) => concat("storage error: ", s.as_str()),
            TleError::Network(s) => concat("network error: ", s.as_str()),
            TleError::InvalidCelestrakData(s) => concat("invalid CelesTrak data: ", s.as_str()),
        }
    }
}

} // verus!
