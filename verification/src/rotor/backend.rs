//! The failure surface shared by every rotor backend.
use vstd::prelude::*;
use crate::text::{concat, owned};
use super::engine::{protocol_error_text, ProtocolError};
use super::profile::{rotor_error_text, RotorError};

verus! {

/// Failure of a rotor backend (simulated or serial).
#[derive(Debug, Clone, PartialEq, Eq)]
pub enum RotorBackendError {
    /// Serial port could not be opened (path, permission, busy).
    PortOpen(String),
    /// Underlying read/write I/O error.
    Io(String),
    /// No response within the read timeout after all retries.
    Timeout,
    /// Wire codec failed to encode a command or decode a readout.
    Protocol(String),
    /// Requested target lies outside the axis physical range.
    OutOfRange(String),
    /// Profile carries no wire protocol.
    NoProtocol,
    /// Rotor profile is invalid.
    Profile(String),
}

/// The message a backend error displays.
pub open spec fn backend_error_text(e: RotorBackendError) -> Seq<char> {
    match e {
        RotorBackendError::PortOpen(s) => "serial port open failed: "@ + s@,
        RotorBackendError::Io(s) => "serial I/O error: "@ + s@,
        RotorBackendError::Timeout => "rotor did not respond within timeout"@,
        RotorBackendError::Protocol(s) => "protocol error: "@ + s@,
        RotorBackendError::OutOfRange(s) => "target out of range: "@ + s@,
        RotorBackendError::NoProtocol => "rotor profile has no protocol spec"@,
        RotorBackendError::Profile(s) => "invalid rotor profile: "@ + s@,
    }
}

impl RotorBackendError {
    /// The message this error displays.
    pub fn message(&self) -> (s: String)
        ensures
            s@ == backend_error_text(*self),
    {
        match self {
            RotorBackendError::PortOpen(s) => concat("serial port open failed: ", s.as_str()),
            RotorBackendError::Io(s) => concat("serial I/O error: ", s.as_str()),
            RotorBackendError::Timeout => owned("rotor did not respond within timeout"),
            RotorBackendError::Protocol(s) => concat("protocol error: ", s.as_str()),
            RotorBackendError::OutOfRange(s) => concat("target out of range: ", s.as_str()),
            RotorBackendError::NoProtocol => owned("rotor profile has no protocol spec"),
            RotorBackendError::Profile(s) => concat("invalid rotor profile: ", s.as_str()),
        }
    }

    /// A profile error carried across the backend boundary, with its message.
    pub fn from_rotor_error(e: RotorError) -> (r: RotorBackendError)
        ensures
            r matches RotorBackendError::Profile(s) && s@ == rotor_error_text(e),
    {
        RotorBackendError::Profile(e.message())
    }

    /// A codec error carried across the backend boundary, with its message.
    pub fn from_protocol_error(e: ProtocolError) -> (r: RotorBackendError)
        ensures
            r matches RotorBackendError::Protocol(s) && s@ == protocol_error_text(e),
    {
        RotorBackendError::Protocol(e.message())
    }
}

impl From<RotorError> for RotorBackendError {
    fn from(e: RotorError) -> (r: RotorBackendError) {
        RotorBackendError::from_rotor_error(e)
    }
}

/// The conversion builds its message text, which no spec value can name; its
/// contract is the one of `from_rotor_error`.
impl vstd::std_specs::convert::FromSpecImpl<RotorError> for RotorBackendError {
    open spec fn obeys_from_spec() -> bool {
        false
    }

    open spec fn from_spec(e: RotorError) -> RotorBackendError {
        RotorBackendError::Timeout
    }
}

impl From<ProtocolError> for RotorBackendError {
    fn from(e: ProtocolError) -> (r: RotorBackendError) {
        RotorBackendError::from_protocol_error(e)
    }
}

/// The conversion builds its message text, which no spec value can name; its
/// contract is the one of `from_protocol_error`.
impl vstd::std_specs::convert::FromSpecImpl<ProtocolError> for RotorBackendError {
    open spec fn obeys_from_spec() -> bool {
        false
    }

    open spec fn from_spec(e: ProtocolError) -> RotorBackendError {
        RotorBackendError::Timeout
    }
}

} // verus!
