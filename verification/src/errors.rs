//! The core error type shared by every service of the system.
use vstd::prelude::*;

verus! {

broadcast use vstd::string::group_string_axioms;

/// The core error cases. Errors that come from outside (a UUID parser, the
/// database, a worker queue) are carried by their message.
#[derive(Debug, Clone)]
pub enum CoreError {
    /// An identifier could not be parsed.
    ParseIdError(String),
    /// A requested resource was not found.
    NotFound,
    /// Internal application error.
    InternalError(String),
    /// An unexpected or invalid response from a peer or a server.
    UnexpectedResponse(String),
    /// A request from a user failed validation.
    ValidationFail(String),
    /// An error reported while handing work to the workers.
    WorkerError(String),
}

/// The view of a core error: the same cases, with each message as characters.
pub enum CoreErrorView {
    ParseIdError(Seq<char>),
    NotFound,
    InternalError(Seq<char>),
    UnexpectedResponse(Seq<char>),
    ValidationFail(Seq<char>),
    WorkerError(Seq<char>),
}

impl View for CoreError {
    type V = CoreErrorView;

    open spec fn view(&self) -> CoreErrorView {
        match self {
            CoreError::ParseIdError(m) => CoreErrorView::ParseIdError(m@),
            CoreError::NotFound => CoreErrorView::NotFound,
            CoreError::InternalError(m) => CoreErrorView::InternalError(m@),
            CoreError::UnexpectedResponse(m) => CoreErrorView::UnexpectedResponse(m@),
            CoreError::ValidationFail(m) => CoreErrorView::ValidationFail(m@),
            CoreError::WorkerError(m) => CoreErrorView::WorkerError(m@),
        }
    }
}

/// The message shown for a core error.
pub open spec fn core_error_text(e: CoreErrorView) -> Seq<char> {
    match e {
        CoreErrorView::ParseIdError(m) => "Failed to parse ID: "@ + m,
        CoreErrorView::NotFound => "Resource not found"@,
        CoreErrorView::InternalError(m) => "Internal error: "@ + m,
        CoreErrorView::UnexpectedResponse(m) => "Unexpected response: "@ + m,
        CoreErrorView::ValidationFail(m) => "Validation fails: "@ + m,
        CoreErrorView::WorkerError(m) => "Worker error: "@ + m,
    }
}

/// A string holding `prefix` followed by `rest`.
pub fn prefixed(prefix: &str, rest: &str) -> (r: String)
    ensures
        r@ == prefix@ + rest@,
{
    let mut s = String::from_str(prefix);
    s.append(rest);
    s
}

impl CoreError {
    /// The message shown for this error.
    pub fn to_string(&self) -> (r: String)
        ensures
            r@ == core_error_text(self@),
    {
        match self {
            CoreError::ParseIdError(m) => prefixed("Failed to parse ID: ", m.as_str()),
            CoreError::NotFound => String::from_str("Resource not found"),
            CoreError::InternalError(m) => prefixed("Internal error: ", m.as_str()),
            CoreError::UnexpectedResponse(m) => prefixed("Unexpected response: ", m.as_str()),
            CoreError::ValidationFail(m) => prefixed("Validation fails: ", m.as_str()),
            CoreError::WorkerError(m) => prefixed("Worker error: ", m.as_str()),
        }
    }
}

} // verus!
