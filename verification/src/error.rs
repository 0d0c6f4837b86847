//! Error taxonomy shared by ingress and the engine.

use vstd::prelude::*;
use vstd::string::StringExecFns;

verus! {

/// Everything that can go wrong between ingress and the registry.
///
/// `Conflict` is reserved and never produced by this core;
/// `NoAvailableCouriers` is reserved for synchronous APIs — the engine
/// re-queues instead of returning it.
#[derive(Debug)]
pub enum AppError {
    NotFound(String),
    BadRequest(String),
    Conflict(String),
    NoAvailableCouriers,
    Internal(String),
}

impl AppError {
    /// The HTTP status code each variant maps to.
    pub fn status_code(&self) -> (code: u16)
        ensures
            code == match self {
                AppError::NotFound(_) => 404u16,
                AppError::BadRequest(_) => 400u16,
                AppError::Conflict(_) => 409u16,
                AppError::NoAvailableCouriers => 503u16,
                AppError::Internal(_) => 500u16,
            },
    {
        match self {
            AppError::NotFound(_) => 404,
            AppError::BadRequest(_) => 400,
            AppError::Conflict(_) => 409,
            AppError::NoAvailableCouriers => 503,
            AppError::Internal(_) => 500,
        }
    }

    /// The human-readable message, prefixed as the wire format shows it.
    pub fn message(&self) -> (msg: String)
        ensures
            msg@ == match self {
                AppError::NotFound(m) => "not found: "@ + m@,
                AppError::BadRequest(m) => "bad request: "@ + m@,
                AppError::Conflict(m) => "conflict: "@ + m@,
                AppError::NoAvailableCouriers => "no couriers available"@,
                AppError::Internal(m) => "internal error: "@ + m@,
            },
    {
        match self {
            AppError::NotFound(m) => "not found: ".to_owned().concat(m.as_str()),
            AppError::BadRequest(m) => "bad request: ".to_owned().concat(m.as_str()),
            AppError::Conflict(m) => "conflict: ".to_owned().concat(m.as_str()),
            AppError::NoAvailableCouriers => "no couriers available".to_owned(),
            AppError::Internal(m) => "internal error: ".to_owned().concat(m.as_str()),
        }
    }
}

impl Clone for AppError {
    fn clone(&self) -> (r: Self)
        ensures
            r == *self,
    {
        match self {
            AppError::NotFound(m) => AppError::NotFound(m.clone()),
            AppError::BadRequest(m) => AppError::BadRequest(m.clone()),
            AppError::Conflict(m) => AppError::Conflict(m.clone()),
            AppError::NoAvailableCouriers => AppError::NoAvailableCouriers,
            AppError::Internal(m) => AppError::Internal(m.clone()),
        }
    }
}

} // verus!
