//! Delivery of an outgoing payload under a module's size limit: payloads
//! over the limit are truncated to the limit's byte count, and a cut that
//! would split one character's encoding is a read failure, as revalidating
//! the truncated bytes reports it.

use vstd::prelude::*;
use crate::error::MmiError;
use crate::text::{byte_len, cut_on_boundary, exceeds_bytes, fit_prefix, truncate_bytes};

verus! {

/// What delivering a payload under a byte limit yields; a zero limit
/// disables the check.
pub open spec fn deliver_spec(payload: Seq<char>, max: u32) -> Result<Seq<char>, MmiError> {
    if max != 0 && byte_len(payload) > max {
        if cut_on_boundary(payload, max as nat) {
            Ok(payload.take(fit_prefix(payload, max as nat) as int))
        } else {
            Err(MmiError::FailedRead)
        }
    } else {
        Ok(payload)
    }
}

/// Whether a delivery outcome is the specified one, up to string views.
pub open spec fn delivered(r: Result<String, MmiError>, spec_r: Result<Seq<char>, MmiError>) -> bool {
    match (r, spec_r) {
        (Result::Ok(s), Result::Ok(p)) => s@ == p,
        (Result::Err(a), Result::Err(b)) => a == b,
        _ => false,
    }
}

/// Delivers a payload under the module's size limit.
pub fn deliver_payload(payload: String, max: u32) -> (r: Result<String, MmiError>)
    ensures
        delivered(r, deliver_spec(payload@, max)),
{
    if max != 0 && exceeds_bytes(payload.as_str(), max) {
        match truncate_bytes(payload.as_str(), max) {
            Some(t) => Ok(t),
            None => Err(MmiError::FailedRead),
        }
    } else {
        Ok(payload)
    }
}

} // verus!
