//! The error taxonomy and its mapping to HTTP status codes and messages.
use vstd::prelude::*;
use vstd::string::StringExecFns;

verus! {

/// Everything that can go wrong while answering a request.
#[derive(Debug, PartialEq, Eq)]
pub enum AppError {
    /// The token endpoint answered with a non-success status.
    UpstreamAuthFailure,
    /// The resource endpoint answered with a status that is neither success
    /// nor "no content".
    UpstreamFetchFailure,
    /// An upstream body could not be read in the expected JSON shape.
    UpstreamProtocolError,
    /// The upstream could not be reached at the transport level.
    TransportError(String),
    /// The process configuration is unusable.
    ConfigurationError(String),
}

impl AppError {
    /// The HTTP status each error kind maps to: upstream refusals are a bad
    /// gateway, everything else an internal error.
    pub open spec fn spec_status(self) -> u16 {
        match self {
            AppError::UpstreamAuthFailure => 502,
            AppError::UpstreamFetchFailure => 502,
            AppError::UpstreamProtocolError => 502,
            AppError::TransportError(_) => 500,
            AppError::ConfigurationError(_) => 500,
        }
    }

    pub open spec fn spec_message(self) -> Seq<char> {
        match self {
            AppError::UpstreamAuthFailure => "Failed to get access token"@,
            AppError::UpstreamFetchFailure => "Failed to get currently playing track"@,
            AppError::UpstreamProtocolError => "Unexpected response from upstream API"@,
            AppError::TransportError(m) => m@,
            AppError::ConfigurationError(m) => m@,
        }
    }

    pub fn status_code(&self) -> (s: u16)
        ensures
            s == self.spec_status(),
    {
        match self {
            AppError::UpstreamAuthFailure => 502,
            AppError::UpstreamFetchFailure => 502,
            AppError::UpstreamProtocolError => 502,
            AppError::TransportError(_) => 500,
            AppError::ConfigurationError(_) => 500,
        }
    }

    /// The human-readable message of the JSON error envelope.
    pub fn message(&self) -> (m: String)
        ensures
            m@ == self.spec_message(),
    {
        match self {
            AppError::UpstreamAuthFailure => String::from_str("Failed to get access token"),
            AppError::UpstreamFetchFailure => String::from_str(
                "Failed to get currently playing track",
            ),
            AppError::UpstreamProtocolError => String::from_str(
                "Unexpected response from upstream API",
            ),
            AppError::TransportError(m) => m.clone(),
            AppError::ConfigurationError(m) => m.clone(),
        }
    }
}

} // verus!
