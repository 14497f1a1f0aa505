//! Small value types that branch records carry.
use std::collections::HashSet;
use crate::text::text_from;
use vstd::prelude::*;

verus! {

/// A node move recorded on a branch: where the node went, and where it was.
/// The old order index is kept as the bit pattern of its floating-point value.
#[derive(Clone, Copy, Debug, PartialEq, Eq, Structural)]
pub struct BranchReorderData {
    pub id: u128,
    pub new_parent_id: u128,
    pub new_upper_sibling_id: Option<u128>,
    pub new_lower_sibling_id: Option<u128>,
    pub old_parent_id: u128,
    pub old_order_index_bits: u64,
}

/// A text before and after a merge changed it.
#[derive(Clone, Debug)]
pub struct TextChange {
    pub old: Option<String>,
    pub new: Option<String>,
}

impl TextChange {
    /// A change with neither text known yet.
    pub fn new() -> (t: TextChange)
        ensures
            t.old is None,
            t.new is None,
    {
        TextChange { old: None, new: None }
    }

    /// Sets the text before the change.
    pub fn assign_old(&mut self, text: Option<String>)
        ensures
            final(self).old == text,
            final(self).new == old(self).new,
    {
        self.old = text;
    }

    /// Sets the text after the change.
    pub fn assign_new(&mut self, text: Option<String>)
        ensures
            final(self).new == text,
            final(self).old == old(self).old,
    {
        self.new = text;
    }
}

/// Whether the conflicts of a branch still block its merge.
#[derive(Clone, Copy, Debug, PartialEq, Eq, Structural)]
pub enum ConflictStatus {
    Pending,
    Resolved,
}

impl ConflictStatus {
    /// The status's name: "Pending" or "Resolved".
    pub fn to_text(&self) -> (s: String)
        ensures
            s@ == conflict_status_text(*self),
    {
        match self {
            ConflictStatus::Pending => text_from("Pending"),
            ConflictStatus::Resolved => text_from("Resolved"),
        }
    }
}

/// The name of a conflict status.
pub open spec fn conflict_status_text(s: ConflictStatus) -> Seq<char> {
    match s {
        ConflictStatus::Pending => "Pending"@,
        ConflictStatus::Resolved => "Resolved"@,
    }
}

/// What blocks a branch from being merged: objects the branch edited or built
/// on that were deleted from the original, and flow steps that collide with
/// original ones.
#[derive(Clone, Debug)]
pub struct Conflict {
    pub status: String,
    pub deleted_ancestors: Option<HashSet<u128>>,
    pub deleted_edited_nodes: Option<HashSet<u128>>,
    pub deleted_edited_flows: Option<HashSet<u128>>,
    pub deleted_edited_flow_steps: Option<HashSet<u128>>,
    pub conflicting_flow_steps: Option<HashSet<u128>>,
    pub deleted_edited_ios: Option<HashSet<u128>>,
}

impl Conflict {
    /// A conflict record with nothing in it and an empty status.
    pub fn default_conflict() -> (c: Conflict)
        ensures
            c.status@ == Seq::<char>::empty(),
            c.deleted_ancestors is None,
            c.deleted_edited_nodes is None,
            c.deleted_edited_flows is None,
            c.deleted_edited_flow_steps is None,
            c.conflicting_flow_steps is None,
            c.deleted_edited_ios is None,
    {
        Conflict {
            status: String::new(),
            deleted_ancestors: None,
            deleted_edited_nodes: None,
            deleted_edited_flows: None,
            deleted_edited_flow_steps: None,
            conflicting_flow_steps: None,
            deleted_edited_ios: None,
        }
    }
}

} // verus!
