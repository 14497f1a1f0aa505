//! The errors the library reports.
use vstd::prelude::*;

verus! {

/// An error of the merge model, with its message.
#[derive(Debug)]
pub enum NodecosmosError {
    Conflict(String),
    PreconditionFailed(String),
    NotFound(String),
    InternalServerError(String),
    BadRequest(String),
    ValidationError(String),
    DecodeError(String),
    FatalMergeError(String),
    FatalReorderError(String),
}

} // verus!
