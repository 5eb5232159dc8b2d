//! Errors of the workers.
use crate::errors::CoreError;
use vstd::prelude::*;

verus! {

/// The errors of the workers.
#[derive(Debug)]
pub enum AppError {
    /// An error of the core logic.
    CoreError(CoreError),
    /// An unexpected error, with its message.
    UnexpectedError(String),
}

} // verus!
