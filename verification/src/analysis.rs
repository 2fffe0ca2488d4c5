//! Failure of RF analysis routines (the numeric routines run outside).
use vstd::prelude::*;
use crate::text::concat;

verus! {

/// An RF analysis input that cannot be used.
#[derive(Debug, Clone, PartialEq, Eq)]
pub enum AnalysisError {
    InvalidInput(String),
}

/// The message an analysis error displays.
pub open spec fn analysis_error_text(e: AnalysisError) -> Seq<char> {
    match e {
        AnalysisError::InvalidInput(s) => "invalid input: "@ + s@,
    }
}

impl AnalysisError {
    /// The message this error displays.
    pub fn message(&self) -> (s: String)
        ensures
            s@ == analysis_error_text(*self),
    {
        match self {
            AnalysisError::InvalidInput(s) => concat("invalid input: ", s.as_str()),
        }
    }
}

} // verus!
