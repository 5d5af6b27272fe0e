//! Failures of a simulation request.

use vstd::prelude::*;
use vstd::string::StringExecFns;

verus! {

/// Why a request was not answered with a trajectory.
#[derive(Debug)]
pub enum ApiError {
    /// The request holds a value that cannot be used.
    BadRequest(String),
    /// The request was well formed, but the simulation could not be run.
    SimulationFailed(String),
    /// Something unforeseen went wrong in the service.
    Internal(String),
}

impl ApiError {
    /// The HTTP status that reports the error.
    pub open spec fn spec_status_code(&self) -> u16 {
        match self {
            ApiError::BadRequest(_) => 400,
            ApiError::SimulationFailed(_) => 422,
            ApiError::Internal(_) => 500,
        }
    }

    /// The short name of the kind of error, for machines to read.
    pub open spec fn spec_error_code(&self) -> Seq<char> {
        match self {
            ApiError::BadRequest(_) => "bad_request"@,
            ApiError::SimulationFailed(_) => "simulation_failed"@,
            ApiError::Internal(_) => "internal_error"@,
        }
    }

    /// The explanation that the error carries.
    pub open spec fn spec_message(&self) -> Seq<char> {
        match self {
            ApiError::BadRequest(message) => message@,
            ApiError::SimulationFailed(message) => message@,
            ApiError::Internal(message) => message@,
        }
    }

    /// The error as one line of text. An internal error does not show its
    /// explanation.
    pub open spec fn spec_describe(&self) -> Seq<char> {
        match self {
            ApiError::BadRequest(message) => "bad request: "@ + message@,
            ApiError::SimulationFailed(message) => "simulation failed: "@ + message@,
            ApiError::Internal(_) => "internal server error"@,
        }
    }

    /// The HTTP status that reports the error: 400 for a bad request, 422 for
    /// a simulation that failed, 500 for an internal error.
    pub fn status_code(&self) -> (status: u16)
        ensures
            status == self.spec_status_code(),
    {
        match self {
            ApiError::BadRequest(_) => 400,
            ApiError::SimulationFailed(_) => 422,
            ApiError::Internal(_) => 500,
        }
    }

    /// The short name of the kind of error, for machines to read.
    pub fn error_code(&self) -> (code: &'static str)
        ensures
            code@ == self.spec_error_code(),
    {
        match self {
            ApiError::BadRequest(_) => "bad_request",
            ApiError::SimulationFailed(_) => "simulation_failed",
            ApiError::Internal(_) => "internal_error",
        }
    }

    /// The explanation that the error carries.
    pub fn message(&self) -> (message: &String)
        ensures
            message@ == self.spec_message(),
    {
        match self {
            ApiError::BadRequest(message) => message,
            ApiError::SimulationFailed(message) => message,
            ApiError::Internal(message) => message,
        }
    }

    /// The error as one line of text.
    pub fn describe(&self) -> (text: String)
        ensures
            text@ == self.spec_describe(),
    {
        match self {
            ApiError::BadRequest(message) => String::from_str("bad request: ").concat(
                message.as_str(),
            ),
            ApiError::SimulationFailed(message) => String::from_str("simulation failed: ").concat(
                message.as_str(),
            ),
            ApiError::Internal(_) => String::from_str("internal server error"),
        }
    }
}

} // verus!
