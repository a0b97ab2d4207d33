//! The error kinds that the application reports.

use vstd::prelude::*;
use vstd::string::*;

verus! {

/// An error of one of five kinds, each with a detail text.
#[derive(Debug)]
pub enum AppError {
    /// Reading or writing failed.
    Io(String),
    /// Encoding to JSON or decoding from it failed.
    Json(String),
    /// The configuration could not be read.
    Config(String),
    /// The storage backend failed or is unknown.
    Storage(String),
    /// Any other failure.
    Anyhow(String),
}

impl AppError {
    /// The detail text of the error.
    pub open spec fn detail(self) -> Seq<char> {
        match self {
            AppError::Io(detail) => detail@,
            AppError::Json(detail) => detail@,
            AppError::Config(detail) => detail@,
            AppError::Storage(detail) => detail@,
            AppError::Anyhow(detail) => detail@,
        }
    }

    /// What stands before the detail in the message of the error.
    pub open spec fn heading(self) -> Seq<char> {
        match self {
            AppError::Io(_) => "I/O error: "@,
            AppError::Json(_) => "JSON serialization/deserialization error: "@,
            AppError::Config(_) => "Configuration error: "@,
            AppError::Storage(_) => "Storage error: "@,
            AppError::Anyhow(_) => "An unexpected error occurred: "@,
        }
    }

    /// The message shown to the user: the heading of the kind, then the detail.
    pub fn message(&self) -> (text: String)
        ensures
            text@ == self.heading() + self.detail(),
    {
        match self {
            AppError::Io(detail) => String::from_str("I/O error: ").concat(detail.as_str()),
            AppError::Json(detail) => String::from_str(
                "JSON serialization/deserialization error: ",
            ).concat(detail.as_str()),
            AppError::Config(detail) => String::from_str("Configuration error: ").concat(
                detail.as_str(),
            ),
            AppError::Storage(detail) => String::from_str("Storage error: ").concat(
                detail.as_str(),
            ),
            AppError::Anyhow(detail) => String::from_str("An unexpected error occurred: ").concat(
                detail.as_str(),
            ),
        }
    }
}

} // verus!
