//! Errors of a client node, and the HTTP answer each one gets.
use crate::errors::{core_error_text, CoreError, CoreErrorView};
use vstd::prelude::*;

verus! {

broadcast use vstd::string::group_string_axioms;

/// The errors of a client node. Errors that come from outside (the JSON
/// extractor, I/O, the serializer) are carried as the plain values that the
/// answer needs.
#[derive(Debug)]
pub enum AppError {
    /// The request body held invalid JSON; the extractor's status and message.
    JsonRejection { status: u16, body: String },
    /// An input/output error, by its message.
    IOError(String),
    /// An error of the core logic.
    CoreError(CoreError),
    /// A serialization error, by its message.
    BincodeError(String),
}

/// The status code and message that a client node answers an error with: bad
/// identifiers and failed validation are the caller's fault, a missing resource
/// is not found, and other errors are the node's, with a generic message when
/// they do not come from the core logic.
pub open spec fn client_error_answer(e: &AppError) -> (u16, Seq<char>) {
    match e {
        AppError::JsonRejection { status, body } => (*status, body@),
        AppError::CoreError(c) => match c@ {
            CoreErrorView::ParseIdError(_) => (400, core_error_text(c@)),
            CoreErrorView::ValidationFail(_) => (400, core_error_text(c@)),
            CoreErrorView::NotFound => (404, core_error_text(c@)),
            _ => (500, core_error_text(c@)),
        },
        _ => (500, "Something went wrong"@),
    }
}

impl AppError {
    /// The status code and message of the HTTP answer to this error.
    pub fn error_response(&self) -> (r: (u16, String))
        ensures
            (r.0, r.1@) == client_error_answer(self),
    {
        match self {
            AppError::JsonRejection { status, body } => (*status, body.clone()),
            AppError::CoreError(c) => match c {
                CoreError::ParseIdError(_) | CoreError::ValidationFail(_) => (400, c.to_string()),
                CoreError::NotFound => (404, c.to_string()),
                _ => (500, c.to_string()),
            },
            _ => (500, String::from_str("Something went wrong")),
        }
    }
}

} // verus!
