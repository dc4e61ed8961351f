//! Event identifiers and status-code mapping for telemetry.

use vstd::prelude::*;
use crate::error::{spec_from_i32, ErrorCode};

verus! {

/// Identifies the kind of event a telemetry record reports.
#[derive(Clone, Copy, Debug, PartialEq, Eq, Structural)]
pub enum EventId {
    Default,
    Probe,
    RequestTrace,
}

/// Numeric code of each [`EventId`].
pub open spec fn spec_event_code(e: EventId) -> u64 {
    match e {
        EventId::Default => 1,
        EventId::Probe => 2000,
        EventId::RequestTrace => 2001,
    }
}

impl EventId {
    /// The numeric code that identifies this event kind in emitted records.
    pub fn code(self) -> (r: u64)
        ensures
            r == spec_event_code(self),
    {
        match self {
            EventId::Default => 1,
            EventId::Probe => 2000,
            EventId::RequestTrace => 2001,
        }
    }
}

/// The HTTP status code that a telemetry record reports for a
/// wire-protocol error code.
pub open spec fn spec_status_code(error: i32) -> u16 {
    match spec_from_i32(error) {
        Some(ErrorCode::Success) => 200,
        Some(ErrorCode::AuthenticationFailed) => 401,
        Some(ErrorCode::Unauthorized) => 401,
        Some(ErrorCode::InternalError) => 500,
        Some(ErrorCode::ExceededTimeLimit) => 408,
        Some(ErrorCode::DuplicateKey) => 409,
        _ => 400,
    }
}

/// Maps a wire-protocol error code to the HTTP status code reported in
/// telemetry.
pub fn error_code_to_status_code(error: i32) -> (r: u16)
    ensures
        r == spec_status_code(error),
{
    match ErrorCode::from_i32(error) {
        Some(ErrorCode::Success) => 200,
        Some(ErrorCode::AuthenticationFailed) => 401,
        Some(ErrorCode::Unauthorized) => 401,
        Some(ErrorCode::InternalError) => 500,
        Some(ErrorCode::ExceededTimeLimit) => 408,
        Some(ErrorCode::DuplicateKey) => 409,
        _ => 400,
    }
}

} // verus!
