//! The errors of the library.
use crate::text::concat;
use vstd::prelude::*;

verus! {

/// The kind of a local failure, after the kinds of `std::io::ErrorKind` that
/// the library reports.
#[derive(Debug, Clone, Copy, PartialEq, Eq, Structural)]
pub enum IoKind {
    NotFound,
    InvalidInput,
    PermissionDenied,
    Other,
}

/// A local failure: its kind and a message for the operator.
#[derive(Debug)]
pub struct IoError {
    pub kind: IoKind,
    pub message: String,
}

/// What can go wrong in a conversation with the Gitea API.
#[derive(Debug)]
pub enum ApiError {
    /// Reading a response failed.
    Io(IoError),
    /// The request failed in transport or with an error status.
    Ureq(String),
    /// The response body is not valid JSON.
    Json(String),
    InvalidCredentials(String),
    /// The JSON lacks a field that is needed, or has the wrong shape.
    InvalidContentResponse(String),
}

/// What can go wrong with the configuration file.
#[derive(Debug)]
pub enum ConfigError {
    WriteError(String),
    ReadError(String),
    /// The home directory, where the file lives by default, is unknown.
    LocationError,
}

/// The error of every operation of the library.
#[derive(Debug)]
pub enum Error {
    Api(ApiError),
    Io(IoError),
    Version(String),
    Update(String),
    Configuration(ConfigError),
    /// A precondition of an operation does not hold (a missing feature set).
    Rustea(String),
}

impl Error {
    /// A local failure of the given kind.
    pub fn io(kind: IoKind, msg: String) -> (e: Error)
        ensures
            e matches Error::Io(x) && x.kind == kind && x.message@ == msg@,
    {
        Error::Io(IoError { kind, message: msg })
    }
}

impl ApiError {
    /// The text that reports the error.
    pub open spec fn text(&self) -> Seq<char> {
        match self {
            ApiError::Io(e) => "IO Error: "@ + e.message@,
            ApiError::Ureq(m) => "Failed to make a request. Cause: "@ + m@,
            ApiError::Json(m) => "Failed to parse json. Cause "@ + m@,
            ApiError::InvalidCredentials(m) => "Invalid credentials used. Cause: "@ + m@,
            ApiError::InvalidContentResponse(m) => "Invalid content response from server. Cause: "@
                + m@,
        }
    }

    /// The text that reports the error.
    pub fn describe(&self) -> (r: String)
        ensures
            r@ == self.text(),
    {
        match self {
            ApiError::Io(e) => concat("IO Error: ", e.message.as_str()),
            ApiError::Ureq(m) => concat("Failed to make a request. Cause: ", m.as_str()),
            ApiError::Json(m) => concat("Failed to parse json. Cause ", m.as_str()),
            ApiError::InvalidCredentials(m) => concat("Invalid credentials used. Cause: ", m.as_str()),
            ApiError::InvalidContentResponse(m) => concat(
                "Invalid content response from server. Cause: ",
                m.as_str(),
            ),
        }
    }
}

impl Error {
    /// The text that reports the error.
    pub open spec fn text(&self) -> Seq<char> {
        match self {
            Error::Api(e) => "Gitea api error: "@ + e.text(),
            Error::Io(e) => "IO Error: "@ + e.message@,
            Error::Rustea(m) => "Error pushing configuration: "@ + m@,
            Error::Configuration(ConfigError::WriteError(m)) => "Failed to write configuration "@ + m@,
            Error::Configuration(ConfigError::ReadError(m)) => "Failed to read configuration "@ + m@,
            Error::Configuration(ConfigError::LocationError) => "Could not find home directory"@,
            Error::Version(m) => "Failed to parse version: "@ + m@,
            Error::Update(m) => "Update failed: "@ + m@,
        }
    }

    /// The text that reports the error.
    pub fn describe(&self) -> (r: String)
        ensures
            r@ == self.text(),
    {
        match self {
            Error::Api(e) => concat("Gitea api error: ", e.describe().as_str()),
            Error::Io(e) => concat("IO Error: ", e.message.as_str()),
            Error::Rustea(m) => concat("Error pushing configuration: ", m.as_str()),
            Error::Configuration(ConfigError::WriteError(m)) => concat(
                "Failed to write configuration ",
                m.as_str(),
            ),
            Error::Configuration(ConfigError::ReadError(m)) => concat(
                "Failed to read configuration ",
                m.as_str(),
            ),
            Error::Configuration(ConfigError::LocationError) => "Could not find home directory".to_owned(),
            Error::Version(m) => concat("Failed to parse version: ", m.as_str()),
            Error::Update(m) => concat("Update failed: ", m.as_str()),
        }
    }
}

} // verus!
