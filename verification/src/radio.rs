//! Radio profile errors.
use vstd::prelude::*;
use crate::text::concat;

verus! {

/// A radio profile field out of range.
#[derive(Debug, Clone, PartialEq, Eq)]
pub enum RadioError {
    InvalidField(String),
}

/// The message a radio error displays.
pub open spec fn radio_error_text(e: RadioError) -> Seq<char> {
    match e {
        RadioError::InvalidField(s) => "invalid radio field "@ + s@,
    }
}

impl RadioError {
    /// The message this error displays.
    pub fn message(&self) -> (s: String)
        ensures
            s@ == radio_error_text(*self),
    {
        match self {
            RadioError::InvalidField(s) => concat("invalid radio field ", s.as_str()),
        }
    }
}

} // verus!
