//! Contribution requests: a branch of a node that its owner proposes to merge,
//! with its status and the people it concerns.
use std::collections::HashSet;
use crate::branch::Branch;
use crate::comment::{uuid_text, hyphenated};
use crate::errors::NodecosmosError;
use crate::ids::{opt_set, add_all, set_to_vec};
use crate::text::{text_eq, text_from, text_concat};
use vstd::prelude::*;

pub mod status;

verus! {

broadcast use vstd::std_specs::hash::group_hash_axioms;

/// The HTML that `ammonia`'s default cleaner keeps of a text.
pub uninterp spec fn sanitized_html(text: Seq<char>) -> Seq<char>;

/// Cleans HTML down to a safe subset with `ammonia`'s default settings
/// (`ammonia::clean`): the result is a function of the text alone, named
/// `sanitized_html`.
#[verifier::external_body]
pub(crate) fn clean_html(text: &str) -> (r: String)
    ensures
        r@ == sanitized_html(text@),
{
    ammonia::clean(text)
}

/// The status of a contribution request.
#[derive(Clone, Copy, Debug, PartialEq, Eq, Structural)]
pub enum ContributionRequestStatus {
    WorkInProgress,
    Published,
    Merged,
    Closed,
}

/// The stored name of a contribution request status.
pub open spec fn status_name(s: ContributionRequestStatus) -> Seq<char> {
    match s {
        ContributionRequestStatus::WorkInProgress => "WorkInProgress"@,
        ContributionRequestStatus::Published => "Published"@,
        ContributionRequestStatus::Merged => "Merged"@,
        ContributionRequestStatus::Closed => "Closed"@,
    }
}

impl ContributionRequestStatus {
    /// The status of a new contribution request, as stored: "WorkInProgress".
    pub fn default() -> (s: Option<String>)
        ensures
            s matches Some(t) && t@ == status_name(ContributionRequestStatus::WorkInProgress),
    {
        Some(ContributionRequestStatus::WorkInProgress.to_text())
    }

    /// The status's stored name.
    pub fn to_text(&self) -> (s: String)
        ensures
            s@ == status_name(*self),
    {
        match self {
            ContributionRequestStatus::WorkInProgress => text_from("WorkInProgress"),
            ContributionRequestStatus::Published => text_from("Published"),
            ContributionRequestStatus::Merged => text_from("Merged"),
            ContributionRequestStatus::Closed => text_from("Closed"),
        }
    }
}

/// A contribution request. Its id is also the id of its branch.
pub struct ContributionRequest {
    pub node_id: u128,
    pub id: u128,
    pub root_id: u128,
    pub editor_ids: Option<HashSet<u128>>,
    pub title: String,
    pub description: Option<String>,
    pub status: Option<String>,
    pub owner_id: u128,
    pub branch: Option<Branch>,
}

/// A failed merge: the branch as the merge left it, and why it failed.
pub struct MergeError {
    pub branch: Branch,
    pub inner: NodecosmosError,
}

/// Whether an optional stored status names `s`.
pub open spec fn has_status(status: Option<String>, s: ContributionRequestStatus) -> bool {
    status matches Some(t) && t@ == status_name(s)
}

/// Who hears of a new contribution request: the node's owner and editors.
pub open spec fn spec_receivers(node_owner_id: u128, node_editor_ids: Option<HashSet<u128>>) -> Set<u128> {
    opt_set(node_editor_ids).insert(node_owner_id)
}

impl ContributionRequest {
    /// Gives a new request its id and owner; its status starts as work in progress.
    pub fn set_defaults(&mut self, id: u128, current_user_id: u128)
        ensures
            final(self).id == id,
            final(self).owner_id == current_user_id,
            final(self).node_id == old(self).node_id,
            final(self).root_id == old(self).root_id,
            final(self).title == old(self).title,
            final(self).description == old(self).description,
            final(self).status == old(self).status,
            final(self).editor_ids == old(self).editor_ids,
    {
        self.id = id;
        self.owner_id = current_user_id;
    }

    /// The branch a new request opens: it has the request's id, title and
    /// owner, the node's root and visibility, and as editors the node's
    /// editors and owner.
    pub fn new_branch(
        &self,
        node_root_id: u128,
        node_is_public: bool,
        node_owner_id: u128,
        node_editor_ids: &Option<HashSet<u128>>,
    ) -> (b: Branch)
        ensures
            b.id == self.id,
            b.node_id == self.node_id,
            b.root_id == node_root_id,
            b.title matches Some(t) && t@ == self.title@,
            b.description is Some <==> self.description is Some,
            b.description matches Some(d) ==> self.description matches Some(sd) && d@ == sd@,
            b.owner_id == self.owner_id,
            b.is_public == node_is_public,
            b.is_contribution_request == Some(true),
            b.editor_ids matches Some(e) && e@ == spec_receivers(node_owner_id, *node_editor_ids),
            b.status is None,
            b.conflict is None,
    {
        let mut editors: HashSet<u128> = HashSet::new();
        if let Some(ids) = node_editor_ids {
            let v = set_to_vec(ids);
            add_all(&mut editors, &v);
        }
        editors.insert(node_owner_id);
        proof {
            assert(editors@ =~= spec_receivers(node_owner_id, *node_editor_ids));
        }
        let mut b = Branch::new(self.id, self.node_id, node_root_id, self.owner_id);
        b.title = Some(text_from(self.title.as_str()));
        b.description = match &self.description {
            Some(d) => Some(text_from(d.as_str())),
            None => None,
        };
        b.status = None;
        b.is_public = node_is_public;
        b.is_contribution_request = Some(true);
        b.editor_ids = Some(editors);
        b
    }

    /// Who hears of the new request: the node's owner and editors.
    pub fn notification_receivers(node_owner_id: u128, node_editor_ids: &Option<HashSet<u128>>) -> (r: HashSet<u128>)
        ensures
            r@ == spec_receivers(node_owner_id, *node_editor_ids),
    {
        let mut r: HashSet<u128> = HashSet::new();
        r.insert(node_owner_id);
        if let Some(ids) = node_editor_ids {
            let v = set_to_vec(ids);
            add_all(&mut r, &v);
        }
        proof {
            assert(r@ =~= spec_receivers(node_owner_id, *node_editor_ids));
        }
        r
    }

    /// What the notification of a new request says.
    pub fn notification_text(&self) -> (s: String)
        ensures
            s@ == "created new contribution request - "@ + self.title@,
    {
        text_concat(text_from("created new contribution request - "), self.title.as_str())
    }

    /// Cleans the description of everything but safe HTML.
    pub fn sanitize_description(&mut self)
        ensures
            match old(self).description {
                Some(d) => final(self).description matches Some(c) && c@ == sanitized_html(d@),
                None => final(self).description is None,
            },
            final(self).id == old(self).id,
            final(self).title == old(self).title,
    {
        if let Some(d) = &self.description {
            let cleaned = clean_html(d.as_str());
            self.description = Some(cleaned);
        }
    }

    /// The link of the notification of a new request.
    pub fn notification_url(&self, client_url: &str, node_original_id: u128) -> (s: String)
        ensures
            s@ == client_url@ + "/nodes/"@ + hyphenated(node_original_id) + "/"@ + hyphenated(self.node_id)
                + "/contribution_requests/"@ + hyphenated(self.id),
    {
        let o = uuid_text(node_original_id);
        let n = uuid_text(self.node_id);
        let i = uuid_text(self.id);
        let url = text_concat(text_from(client_url), "/nodes/");
        let url = text_concat(url, o.as_str());
        let url = text_concat(url, "/");
        let url = text_concat(url, n.as_str());
        let url = text_concat(url, "/contribution_requests/");
        text_concat(url, i.as_str())
    }

    /// Sets the status.
    pub fn update_status(&mut self, status: ContributionRequestStatus)
        ensures
            has_status(final(self).status, status),
            final(self).id == old(self).id,
            final(self).owner_id == old(self).owner_id,
            final(self).branch == old(self).branch,
    {
        self.status = Some(status.to_text());
    }

    /// Publishes the request.
    pub fn publish(&mut self)
        ensures
            has_status(final(self).status, ContributionRequestStatus::Published),
            final(self).id == old(self).id,
    {
        self.update_status(ContributionRequestStatus::Published);
    }

    /// A request can be merged unless it already was.
    pub fn validate_mergeable(&self) -> (r: Result<(), NodecosmosError>)
        ensures
            r is Err <==> has_status(self.status, ContributionRequestStatus::Merged),
            r matches Err(e) ==> (e matches NodecosmosError::PreconditionFailed(m)
                && m@ == "Contribution request is already merged"@),
    {
        if let Some(s) = &self.status {
            if text_eq(s.as_str(), "Merged") {
                return Err(NodecosmosError::PreconditionFailed(text_from("Contribution request is already merged")));
            }
        }
        Ok(())
    }

    /// Takes in the outcome of merging the request's branch: the branch as it
    /// came out is kept either way; a merge that went through marks the
    /// request merged, and a failed one passes its error on.
    pub fn apply_merge_result(&mut self, result: Result<Branch, MergeError>) -> (r: Result<(), NodecosmosError>)
        ensures
            r is Ok <==> result is Ok,
            result matches Ok(b) ==> final(self).branch == Some(b),
            result matches Err(e) ==> final(self).branch == Some(e.branch) && r == Err::<(), NodecosmosError>(e.inner),
            result is Ok ==> has_status(final(self).status, ContributionRequestStatus::Merged),
            result is Err ==> final(self).status == old(self).status,
            final(self).id == old(self).id,
    {
        match result {
            Ok(b) => {
                self.branch = Some(b);
                self.update_status(ContributionRequestStatus::Merged);
                Ok(())
            },
            Err(e) => {
                self.branch = Some(e.branch);
                Err(e.inner)
            },
        }
    }
}

} // verus!
