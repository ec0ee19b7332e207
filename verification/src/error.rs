//! The error codes a module's get/set surface reports, and their mapping to
//! the host protocol's integer codes.

use vstd::prelude::*;
use crate::module_meta::{IntoPropertyError, PropertyError};
use crate::runtime::{EINVAL, ENOMEM};

verus! {

/// Everything that can go wrong serving a host request.
#[derive(Clone, Copy, PartialEq, Eq, Structural, Debug)]
pub enum MmiError {
    FailedRead,
    FailedAllocate,
    InvalidArgument,
    PayloadSizeExceeded,
    SerdeError,
    SystemctlError,
    SystemdError,
}

impl MmiError {
    /// The host protocol's integer code for this error: allocation and
    /// size failures map to the no-memory code, everything else to the
    /// invalid-argument code.
    pub open spec fn code_spec(self) -> i32 {
        match self {
            MmiError::FailedAllocate => ENOMEM,
            MmiError::PayloadSizeExceeded => ENOMEM,
            _ => EINVAL,
        }
    }

    /// Translates this error to the host protocol's integer code.
    pub fn code(&self) -> (r: i32)
        ensures
            r == self.code_spec(),
    {
        match self {
            MmiError::FailedAllocate => ENOMEM,
            MmiError::PayloadSizeExceeded => ENOMEM,
            _ => EINVAL,
        }
    }

    /// The human-readable message for this error.
    pub open spec fn message_spec(self) -> Seq<char> {
        match self {
            MmiError::FailedRead => "A CString read from a raw pointer failed"@,
            MmiError::FailedAllocate => "A memory allocation failed"@,
            MmiError::InvalidArgument => "There was an invalid argument"@,
            MmiError::PayloadSizeExceeded => "The payload exceeded max payload bytes size"@,
            MmiError::SerdeError => "There was an error serializing or deserializing"@,
            MmiError::SystemctlError => "There was an error fetching daemon information using systemctl"@,
            MmiError::SystemdError => "The caller was not started via Systemd and does not have Systemd Daemons"@,
        }
    }

    /// Renders the human-readable message for this error.
    pub fn message(&self) -> (r: &'static str)
        ensures
            r@ == self.message_spec(),
    {
        match self {
            MmiError::FailedRead => "A CString read from a raw pointer failed",
            MmiError::FailedAllocate => "A memory allocation failed",
            MmiError::InvalidArgument => "There was an invalid argument",
            MmiError::PayloadSizeExceeded => "The payload exceeded max payload bytes size",
            MmiError::SerdeError => "There was an error serializing or deserializing",
            MmiError::SystemctlError => "There was an error fetching daemon information using systemctl",
            MmiError::SystemdError => "The caller was not started via Systemd and does not have Systemd Daemons",
        }
    }
}

impl IntoPropertyError for MmiError {
    /// Wraps this error's message as a property error.
    fn into_prop_error(self) -> PropertyError {
        let mut s = String::new();
        s.append(self.message());
        PropertyError::new(s)
    }
}

} // verus!
