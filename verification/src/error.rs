//! The errors the app reports to its frontend.
use vstd::prelude::*;
use crate::text::{concat, owned};

verus! {

/// A failure of the LLM backend.
#[derive(Debug, Clone, PartialEq, Eq)]
pub enum LlmError {
    /// The backend could not be reached, or answered with an HTTP error.
    Network(String),
    /// The backend's answer did not have the expected shape.
    Parse(String),
}

impl LlmError {
    /// The text this error is shown with.
    pub open spec fn message(&self) -> Seq<char> {
        match self {
            LlmError::Network(m) => "Network connection failed: "@ + m@,
            LlmError::Parse(m) => "Failed to parse LLM response: "@ + m@,
        }
    }

    /// The text this error is shown with.
    pub fn to_string(&self) -> (s: String)
        ensures
            s@ == self.message(),
    {
        match self {
            LlmError::Network(m) => concat("Network connection failed: ", m.as_str()),
            LlmError::Parse(m) => concat("Failed to parse LLM response: ", m.as_str()),
        }
    }
}

/// Every error a command can answer with.
#[derive(Debug, Clone, PartialEq, Eq)]
pub enum AppError {
    /// Errors originating from the LLM backend (network, parsing, ...).
    Llm(LlmError),
    /// Errors originating from database operations, with the database's own message.
    Db(String),
    /// Errors originating from the OS keychain.
    Credential(String),
    /// Errors originating from user input validation.
    Validation(String),
    /// A record that the request names does not exist.
    NotFound(String),
    /// General fallback for unexpected system failures.
    Internal(String),
}

impl AppError {
    /// The text this error is shown with.
    pub open spec fn message(&self) -> Seq<char> {
        match self {
            AppError::Llm(e) => "LLM Error: "@ + e.message(),
            AppError::Db(m) => "Database Error: "@ + m@,
            AppError::Credential(m) => "Credential Error: "@ + m@,
            AppError::Validation(m) => "Validation Error: "@ + m@,
            AppError::NotFound(m) => "Not Found: "@ + m@,
            AppError::Internal(m) => "Internal Error: "@ + m@,
        }
    }

    /// The text this error is shown with (and serialized as).
    pub fn to_string(&self) -> (s: String)
        ensures
            s@ == self.message(),
    {
        match self {
            AppError::Llm(e) => {
                let inner = e.to_string();
                concat("LLM Error: ", inner.as_str())
            },
            AppError::Db(m) => concat("Database Error: ", m.as_str()),
            AppError::Credential(m) => concat("Credential Error: ", m.as_str()),
            AppError::Validation(m) => concat("Validation Error: ", m.as_str()),
            AppError::NotFound(m) => concat("Not Found: ", m.as_str()),
            AppError::Internal(m) => concat("Internal Error: ", m.as_str()),
        }
    }
}

/// A validation error with the given text.
pub fn validation_error(msg: &str) -> (e: AppError)
    ensures
        e matches AppError::Validation(m) && m@ == msg@,
{
    AppError::Validation(owned(msg))
}

} // verus!
