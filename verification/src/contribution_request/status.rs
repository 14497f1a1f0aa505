//! The status names of contribution requests in their upper-case form.
use crate::text::text_from;
use vstd::prelude::*;

verus! {

/// The status of a contribution request, of which only work in progress is in use.
#[derive(Clone, Copy, Debug, PartialEq, Eq, Structural)]
pub enum ContributionRequestStatus {
    WorkInProgress,
}

impl ContributionRequestStatus {
    /// The status's stored name.
    pub fn to_text(&self) -> (s: String)
        ensures
            s@ == "WORK_IN_PROGRESS"@,
    {
        match self {
            ContributionRequestStatus::WorkInProgress => text_from("WORK_IN_PROGRESS"),
        }
    }
}

/// The status of a new contribution request: "WORK_IN_PROGRESS".
pub fn default_status() -> (s: Option<String>)
    ensures
        s matches Some(t) && t@ == "WORK_IN_PROGRESS"@,
{
    Some(ContributionRequestStatus::WorkInProgress.to_text())
}

} // verus!
