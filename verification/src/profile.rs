//! Operator profile errors, and how the errors of its parts are reported.
use vstd::prelude::*;
use crate::antenna::{antenna_error_text, AntennaError};
use crate::radio::{radio_error_text, RadioError};
use crate::rotor::profile::{rotor_error_text, RotorError};
use crate::text::{concat, owned};

verus! {

/// Failure of operator profile validation or storage.
#[derive(Debug, Clone, PartialEq, Eq)]
pub enum ProfileError {
    InvalidField(String),
    Db(String),
    Json(String),
    NotFound,
}

/// The message a profile error displays.
pub open spec fn profile_error_text(e: ProfileError) -> Seq<char> {
    match e {
        ProfileError::InvalidField(s) => "invalid field: "@ + s@,
        ProfileError::Db(s) => "storage error: "@ + s@,
        ProfileError::Json(s) => "json error: "@ + s@,
        ProfileError::NotFound => "profile not found"@,
    }
}

impl ProfileError {
    /// The message this error displays.
    pub fn message(&self) -> (s: String)
        ensures
            s@ == profile_error_text(*self),
    {
        match self {
            ProfileError::InvalidField(s) => concat("invalid field: ", s.as_str()),
            ProfileError::Db(s) => concat("storage error: ", s.as_str()),
            ProfileError::Json(s) => concat("json error: ", s.as_str()),
            ProfileError::NotFound => owned("profile not found"),
        }
    }

    /// An antenna error reported as an invalid field, with its message.
    pub fn from_antenna_error(e: AntennaError) -> (r: ProfileError)
        ensures
            r matches ProfileError::InvalidField(s) && s@ == antenna_error_text(e),
    {
        ProfileError::InvalidField(e.message())
    }

    /// A radio error reported as an invalid field, with its message.
    pub fn from_radio_error(e: RadioError) -> (r: ProfileError)
        ensures
            r matches ProfileError::InvalidField(s) && s@ == radio_error_text(e),
    {
        ProfileError::InvalidField(e.message())
    }

    /// A rotor error reported as an invalid field, with its message.
    pub fn from_rotor_error(e: RotorError) -> (r: ProfileError)
        ensures
            r matches ProfileError::InvalidField(s) && s@ == rotor_error_text(e),
    {
        ProfileError::InvalidField(e.message())
    }
}

impl From<AntennaError> for ProfileError {
    fn from(e: AntennaError) -> (r: ProfileError) {
        ProfileError::from_antenna_error(e)
    }
}

/// The conversion builds its message text, which no spec value can name; its
/// contract is the one of `from_antenna_error`.
impl vstd::std_specs::convert::FromSpecImpl<AntennaError> for ProfileError {
    open spec fn obeys_from_spec() -> bool {
        false
    }

    open spec fn from_spec(e: AntennaError) -> ProfileError {
        ProfileError::NotFound
    }
}

impl From<RadioError> for ProfileError {
    fn from(e: RadioError) -> (r: ProfileError) {
        ProfileError::from_radio_error(e)
    }
}

/// The conversion builds its message text, which no spec value can name; its
/// contract is the one of `from_radio_error`.
impl vstd::std_specs::convert::FromSpecImpl<RadioError> for ProfileError {
    open spec fn obeys_from_spec() -> bool {
        false
    }

    open spec fn from_spec(e: RadioError) -> ProfileError {
        ProfileError::NotFound
    }
}

impl From<RotorError> for ProfileError {
    fn from(e: RotorError) -> (r: ProfileError) {
        ProfileError::from_rotor_error(e)
    }
}

/// The conversion builds its message text, which no spec value can name; its
/// contract is the one of `from_rotor_error`.
impl vstd::std_specs::convert::FromSpecImpl<RotorError> for ProfileError {
    open spec fn obeys_from_spec() -> bool {
        false
    }

    open spec fn from_spec(e: RotorError) -> ProfileError {
        ProfileError::NotFound
    }
}

} // verus!
