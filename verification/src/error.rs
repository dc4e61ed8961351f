//! Error taxonomy of the gateway.
//!
//! Legality violations surface before any resource is acquired; resource
//! acquisition failures are retryable by the caller; background-task failures
//! never escalate, the system keeps operating on the last-known-good state.

use vstd::prelude::*;

verus! {

/// Wire-protocol error codes understood by clients.
#[derive(Clone, Copy, Debug, PartialEq, Eq, Structural)]
pub enum ErrorCode {
    Success,
    InternalError,
    BadValue,
    Unauthorized,
    TypeMismatch,
    AuthenticationFailed,
    IllegalOperation,
    CursorNotFound,
    ExceededTimeLimit,
    CommandNotSupported,
    NoSuchTransaction,
    TransactionCommitted,
    OperationNotSupportedInTransaction,
    DuplicateKey,
}

/// Numeric wire code of each [`ErrorCode`].
pub open spec fn spec_code(e: ErrorCode) -> i32 {
    match e {
        ErrorCode::Success => 0,
        ErrorCode::InternalError => 1,
        ErrorCode::BadValue => 2,
        ErrorCode::Unauthorized => 13,
        ErrorCode::TypeMismatch => 14,
        ErrorCode::AuthenticationFailed => 18,
        ErrorCode::IllegalOperation => 20,
        ErrorCode::CursorNotFound => 43,
        ErrorCode::ExceededTimeLimit => 50,
        ErrorCode::CommandNotSupported => 115,
        ErrorCode::NoSuchTransaction => 251,
        ErrorCode::TransactionCommitted => 256,
        ErrorCode::OperationNotSupportedInTransaction => 263,
        ErrorCode::DuplicateKey => 11000,
    }
}

impl ErrorCode {
    /// The numeric wire code of this error code.
    pub fn code(self) -> (r: i32)
        ensures
            r == spec_code(self),
    {
        match self {
            ErrorCode::Success => 0,
            ErrorCode::InternalError => 1,
            ErrorCode::BadValue => 2,
            ErrorCode::Unauthorized => 13,
            ErrorCode::TypeMismatch => 14,
            ErrorCode::AuthenticationFailed => 18,
            ErrorCode::IllegalOperation => 20,
            ErrorCode::CursorNotFound => 43,
            ErrorCode::ExceededTimeLimit => 50,
            ErrorCode::CommandNotSupported => 115,
            ErrorCode::NoSuchTransaction => 251,
            ErrorCode::TransactionCommitted => 256,
            ErrorCode::OperationNotSupportedInTransaction => 263,
            ErrorCode::DuplicateKey => 11000,
        }
    }

    /// The error code carried by a numeric wire code, if any code carries it.
    pub fn from_i32(error: i32) -> (r: Option<ErrorCode>)
        ensures
            r == spec_from_i32(error),
    {
        match error {
            0 => Some(ErrorCode::Success),
            1 => Some(ErrorCode::InternalError),
            2 => Some(ErrorCode::BadValue),
            13 => Some(ErrorCode::Unauthorized),
            14 => Some(ErrorCode::TypeMismatch),
            18 => Some(ErrorCode::AuthenticationFailed),
            20 => Some(ErrorCode::IllegalOperation),
            43 => Some(ErrorCode::CursorNotFound),
            50 => Some(ErrorCode::ExceededTimeLimit),
            115 => Some(ErrorCode::CommandNotSupported),
            251 => Some(ErrorCode::NoSuchTransaction),
            256 => Some(ErrorCode::TransactionCommitted),
            263 => Some(ErrorCode::OperationNotSupportedInTransaction),
            11000 => Some(ErrorCode::DuplicateKey),
            _ => None,
        }
    }
}

/// Inverse of [`spec_code`] on the codes that are assigned.
pub open spec fn spec_from_i32(error: i32) -> Option<ErrorCode> {
    if error == 0 {
        Some(ErrorCode::Success)
    } else if error == 1 {
        Some(ErrorCode::InternalError)
    } else if error == 2 {
        Some(ErrorCode::BadValue)
    } else if error == 13 {
        Some(ErrorCode::Unauthorized)
    } else if error == 14 {
        Some(ErrorCode::TypeMismatch)
    } else if error == 18 {
        Some(ErrorCode::AuthenticationFailed)
    } else if error == 20 {
        Some(ErrorCode::IllegalOperation)
    } else if error == 43 {
        Some(ErrorCode::CursorNotFound)
    } else if error == 50 {
        Some(ErrorCode::ExceededTimeLimit)
    } else if error == 115 {
        Some(ErrorCode::CommandNotSupported)
    } else if error == 251 {
        Some(ErrorCode::NoSuchTransaction)
    } else if error == 256 {
        Some(ErrorCode::TransactionCommitted)
    } else if error == 263 {
        Some(ErrorCode::OperationNotSupportedInTransaction)
    } else if error == 11000 {
        Some(ErrorCode::DuplicateKey)
    } else {
        None
    }
}

/// Failures of the gateway's own stateful layer.
///
/// `TransactionCommitted` is a non-fatal idempotent-commit signal, not a hard
/// failure; `ConfigReloadFailed` is non-fatal, stale values are retained.
#[derive(Clone, Copy, Debug, PartialEq, Eq, Structural)]
pub enum GatewayError {
    /// `allocate_data_pool` was never called for this credential key.
    PoolNotProvisioned,
    /// No pooled connection became available within the wait-timeout.
    PoolAcquireTimeout,
    /// The session's transaction was already committed.
    TransactionCommitted,
    /// Abort (or commit) was requested with no active transaction present.
    TransactionNotFound,
    /// The cursor id is absent, expired, or owned by a different user.
    CursorNotFound,
    /// A periodic configuration reload failed; old values stay in force.
    ConfigReloadFailed,
    /// Illegal DDL or reserved-database operation inside a transaction.
    OperationNotSupportedInTransaction,
    /// An internal invariant did not hold, e.g. a transactional request
    /// arrived without its session id.
    InternalInvariantViolation,
    /// A value in the request is malformed.
    BadValue,
    /// The command is not supported as requested.
    CommandNotSupported,
    /// The requested operation is illegal.
    IllegalOperation,
}

impl GatewayError {
    /// The wire-protocol error code that reports this failure.
    pub fn error_code(self) -> (r: ErrorCode)
        ensures
            r == spec_error_code(self),
    {
        match self {
            GatewayError::PoolNotProvisioned => ErrorCode::InternalError,
            GatewayError::PoolAcquireTimeout => ErrorCode::ExceededTimeLimit,
            GatewayError::TransactionCommitted => ErrorCode::TransactionCommitted,
            GatewayError::TransactionNotFound => ErrorCode::NoSuchTransaction,
            GatewayError::CursorNotFound => ErrorCode::CursorNotFound,
            GatewayError::ConfigReloadFailed => ErrorCode::InternalError,
            GatewayError::OperationNotSupportedInTransaction => {
                ErrorCode::OperationNotSupportedInTransaction
            },
            GatewayError::InternalInvariantViolation => ErrorCode::InternalError,
            GatewayError::BadValue => ErrorCode::BadValue,
            GatewayError::CommandNotSupported => ErrorCode::CommandNotSupported,
            GatewayError::IllegalOperation => ErrorCode::IllegalOperation,
        }
    }
}

/// The wire-protocol error code of each [`GatewayError`].
pub open spec fn spec_error_code(e: GatewayError) -> ErrorCode {
    match e {
        GatewayError::PoolNotProvisioned => ErrorCode::InternalError,
        GatewayError::PoolAcquireTimeout => ErrorCode::ExceededTimeLimit,
        GatewayError::TransactionCommitted => ErrorCode::TransactionCommitted,
        GatewayError::TransactionNotFound => ErrorCode::NoSuchTransaction,
        GatewayError::CursorNotFound => ErrorCode::CursorNotFound,
        GatewayError::ConfigReloadFailed => ErrorCode::InternalError,
        GatewayError::OperationNotSupportedInTransaction => {
            ErrorCode::OperationNotSupportedInTransaction
        },
        GatewayError::InternalInvariantViolation => ErrorCode::InternalError,
        GatewayError::BadValue => ErrorCode::BadValue,
        GatewayError::CommandNotSupported => ErrorCode::CommandNotSupported,
        GatewayError::IllegalOperation => ErrorCode::IllegalOperation,
    }
}

} // verus!
