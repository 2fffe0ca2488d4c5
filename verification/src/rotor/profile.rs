//! The structural rules of a rotor profile: which axes an axis type needs,
//! where overhead flip is allowed, and that a configured protocol's templates
//! are usable. The numeric range checks of the axes stay with the caller.
use vstd::prelude::*;
use crate::text::{concat, owned};
use super::engine::{protocol_error_text, templates_verdict, validate_templates, ProtocolError};
use super::spec::ProtocolTemplates;

verus! {

/// Which axes a rotor physically drives.
#[derive(Debug, Clone, Copy, PartialEq, Eq, Structural)]
pub enum AxisType {
    /// Full azimuth + elevation rotor.
    AzEl,
    /// Azimuth-only rotor.
    AzOnly,
    /// Elevation-only rotor.
    ElOnly,
}

/// A rotor profile that breaks a rule, with the offending field.
#[derive(Debug, Clone, PartialEq, Eq)]
pub enum RotorError {
    InvalidField(String),
}

/// The message a rotor error displays.
pub open spec fn rotor_error_text(e: RotorError) -> Seq<char> {
    match e {
        RotorError::InvalidField(s) => "invalid rotor field "@ + s@,
    }
}

impl RotorError {
    /// The message this error displays.
    pub fn message(&self) -> (s: String)
        ensures
            s@ == rotor_error_text(*self),
    {
        match self {
            RotorError::InvalidField(s) => concat("invalid rotor field ", s.as_str()),
        }
    }
}

/// The complaint about axis profiles that do not match the axis type, if any.
pub open spec fn axis_presence_fault(axis_type: AxisType, has_az: bool, has_el: bool) -> Option<
    Seq<char>,
> {
    match axis_type {
        AxisType::AzEl => if !has_az || !has_el {
            Some("axis_type az_el requires both az and el profiles"@)
        } else {
            None
        },
        AxisType::AzOnly => if !has_az {
            Some("axis_type az_only requires an az profile"@)
        } else if has_el {
            Some("axis_type az_only must not carry an el profile"@)
        } else {
            None
        },
        AxisType::ElOnly => if !has_el {
            Some("axis_type el_only requires an el profile"@)
        } else if has_az {
            Some("axis_type el_only must not carry an az profile"@)
        } else {
            None
        },
    }
}

/// Checks that the axis profiles present match the axis type: az-el needs
/// both, az-only exactly az, el-only exactly el.
pub fn check_axis_presence(axis_type: AxisType, has_az: bool, has_el: bool) -> (r: Result<
    (),
    RotorError,
>)
    ensures
        match axis_presence_fault(axis_type, has_az, has_el) {
            Some(m) => r matches Err(RotorError::InvalidField(s)) && s@ == m,
            None => r is Ok,
        },
{
    match axis_type {
        AxisType::AzEl => {
            if !has_az || !has_el {
                return Err(
                    RotorError::InvalidField(
                        owned("axis_type az_el requires both az and el profiles"),
                    ),
                );
            }
        },
        AxisType::AzOnly => {
            if !has_az {
                return Err(RotorError::InvalidField(owned("axis_type az_only requires an az profile")));
            }
            if has_el {
                return Err(
                    RotorError::InvalidField(owned("axis_type az_only must not carry an el profile")),
                );
            }
        },
        AxisType::ElOnly => {
            if !has_el {
                return Err(RotorError::InvalidField(owned("axis_type el_only requires an el profile")));
            }
            if has_az {
                return Err(
                    RotorError::InvalidField(owned("axis_type el_only must not carry an az profile")),
                );
            }
        },
    }
    Ok(())
}

/// Checks that an enabled overhead flip is only configured on an az-el rotor.
pub fn check_flip_axis(flip_enabled: bool, axis_type: AxisType) -> (r: Result<(), RotorError>)
    ensures
        flip_enabled && axis_type != AxisType::AzEl ==> (r matches Err(RotorError::InvalidField(s))
            && s@ == "flip.enabled requires axis_type az_el"@),
        !(flip_enabled && axis_type != AxisType::AzEl) ==> r is Ok,
{
    if flip_enabled && axis_type != AxisType::AzEl {
        return Err(RotorError::InvalidField(owned("flip.enabled requires axis_type az_el")));
    }
    Ok(())
}

/// Checks a configured protocol's templates; a failure is reported as an
/// invalid `protocol` field carrying the protocol error's message.
pub fn check_protocol_templates(t: &ProtocolTemplates) -> (r: Result<(), RotorError>)
    ensures
        exists|pr: Result<(), ProtocolError>|
            #![trigger templates_verdict(*t, pr)]
            templates_verdict(*t, pr) && match pr {
                Ok(()) => r is Ok,
                Err(e) => r matches Err(RotorError::InvalidField(s)) && s@ == "protocol: "@
                    + protocol_error_text(e),
            },
{
    let pr = validate_templates(t);
    let r = match &pr {
        Ok(()) => Ok(()),
        Err(e) => {
            let m = e.message();
            Err(RotorError::InvalidField(concat("protocol: ", m.as_str())))
        },
    };
    assert(templates_verdict(*t, pr));
    r
}

} // verus!
