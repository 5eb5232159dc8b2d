//! Errors of the coordinating server, and the HTTP answer each one gets.
use crate::errors::{core_error_text, CoreError};
use vstd::prelude::*;

verus! {

broadcast use vstd::string::group_string_axioms;

/// The errors of the coordinating server. Errors that come from outside (the
/// JSON extractor, I/O, the job queue, the serializer) are carried as the plain
/// values that the answer needs.
#[derive(Debug)]
pub enum AppError {
    /// The request body held invalid JSON; the extractor's status and message.
    JsonRejection { status: u16, body: String },
    /// An input/output error, by its message.
    IOError(String),
    /// An error of the core logic.
    CoreError(CoreError),
    /// An error of the job queue, by its message.
    GraphileWorkerError(String),
    /// A session-level error.
    SessionError(String),
    /// A serialization error, by its message.
    BincodeError(String),
    /// An unexpected error.
    UnexpectedError(String),
}

/// The status code and message that the server answers an error with. Errors
/// that say too much about the server are answered with a generic message.
pub open spec fn server_error_answer(e: &AppError) -> (u16, Seq<char>) {
    match e {
        AppError::JsonRejection { status, body } => (*status, body@),
        AppError::GraphileWorkerError(m) => (500, m@),
        AppError::SessionError(m) => (500, m@),
        AppError::CoreError(c) => (500, core_error_text(c@)),
        _ => (500, "An unexpected error occurred"@),
    }
}

impl AppError {
    /// The status code and message of the HTTP answer to this error.
    pub fn error_response(&self) -> (r: (u16, String))
        ensures
            (r.0, r.1@) == server_error_answer(self),
    {
        match self {
            AppError::JsonRejection { status, body } => (*status, body.clone()),
            AppError::GraphileWorkerError(m) => (500, m.clone()),
            AppError::SessionError(m) => (500, m.clone()),
            AppError::CoreError(c) => (500, c.to_string()),
            _ => (500, String::from_str("An unexpected error occurred")),
        }
    }
}

} // verus!
