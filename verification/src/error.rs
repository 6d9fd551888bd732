//! Error taxonomy.
//!
//! Outside failures (HTTP, JSON, file system) are carried as their message
//! text, so every error is a plain value.

use vstd::prelude::*;

verus! {

/// Stable error codes for user-facing reporting.
#[derive(Debug, Clone, Copy, PartialEq, Eq, Structural)]
pub enum ErrorCode {
    NetworkError,
    YouTubeParseError,
    MissingDependency,
    NoResults,
    NoSelection,
    InvalidConfig,
    FileError,
    SpawnError,
}

/// The error type of the library.
#[derive(Debug, Clone, PartialEq, Eq)]
pub enum YtChillError {
    /// Transport failure or non-2xx HTTP status.
    Network(String),
    /// The embedded data marker was not found, or its JSON did not parse.
    YouTubeParse(String),
    /// A required external tool is missing.
    MissingDependency(String),
    /// A successful parse yielded an empty result set.
    NoResults,
    /// The user cancelled a selection.
    NoSelection,
    /// The configuration could not be used.
    InvalidConfig(String),
    /// A file could not be read or written.
    File(String),
    /// An external process could not be started or failed.
    Spawn(String),
    /// An HTTP client failure, carried as its message.
    Http(String),
    /// A JSON (de)serialization failure, carried as its message.
    Json(String),
}

pub ghost enum ErrorModel {
    Network(Seq<char>),
    YouTubeParse(Seq<char>),
    MissingDependency(Seq<char>),
    NoResults,
    NoSelection,
    InvalidConfig(Seq<char>),
    File(Seq<char>),
    Spawn(Seq<char>),
    Http(Seq<char>),
    Json(Seq<char>),
}

impl View for YtChillError {
    type V = ErrorModel;

    open spec fn view(&self) -> ErrorModel {
        match self {
            YtChillError::Network(m) => ErrorModel::Network(m@),
            YtChillError::YouTubeParse(m) => ErrorModel::YouTubeParse(m@),
            YtChillError::MissingDependency(m) => ErrorModel::MissingDependency(m@),
            YtChillError::NoResults => ErrorModel::NoResults,
            YtChillError::NoSelection => ErrorModel::NoSelection,
            YtChillError::InvalidConfig(m) => ErrorModel::InvalidConfig(m@),
            YtChillError::File(m) => ErrorModel::File(m@),
            YtChillError::Spawn(m) => ErrorModel::Spawn(m@),
            YtChillError::Http(m) => ErrorModel::Http(m@),
            YtChillError::Json(m) => ErrorModel::Json(m@),
        }
    }
}

/// The code each error reports: transport-like errors share `NetworkError`,
/// JSON failures share `YouTubeParseError`.
pub open spec fn code_of(e: ErrorModel) -> ErrorCode {
    match e {
        ErrorModel::Network(_) => ErrorCode::NetworkError,
        ErrorModel::YouTubeParse(_) => ErrorCode::YouTubeParseError,
        ErrorModel::MissingDependency(_) => ErrorCode::MissingDependency,
        ErrorModel::NoResults => ErrorCode::NoResults,
        ErrorModel::NoSelection => ErrorCode::NoSelection,
        ErrorModel::InvalidConfig(_) => ErrorCode::InvalidConfig,
        ErrorModel::File(_) => ErrorCode::FileError,
        ErrorModel::Spawn(_) => ErrorCode::SpawnError,
        ErrorModel::Http(_) => ErrorCode::NetworkError,
        ErrorModel::Json(_) => ErrorCode::YouTubeParseError,
    }
}

impl YtChillError {
    /// The stable code of this error.
    pub fn code(&self) -> (r: ErrorCode)
        ensures
            r == code_of(self@),
    {
        match self {
            YtChillError::Network(_) => ErrorCode::NetworkError,
            YtChillError::YouTubeParse(_) => ErrorCode::YouTubeParseError,
            YtChillError::MissingDependency(_) => ErrorCode::MissingDependency,
            YtChillError::NoResults => ErrorCode::NoResults,
            YtChillError::NoSelection => ErrorCode::NoSelection,
            YtChillError::InvalidConfig(_) => ErrorCode::InvalidConfig,
            YtChillError::File(_) => ErrorCode::FileError,
            YtChillError::Spawn(_) => ErrorCode::SpawnError,
            YtChillError::Http(_) => ErrorCode::NetworkError,
            YtChillError::Json(_) => ErrorCode::YouTubeParseError,
        }
    }
}

} // verus!
