//! A branch: the record of what a contribution request changed, kept as sets
//! of the ids it created, deleted, restored and edited.
use std::collections::{HashMap, HashSet};
use crate::ids::{opt_set, opt_map, opt_contains, add_all, set_to_vec};
use crate::text::{text_eq, text_from};
use crate::udts::{BranchReorderData, Conflict, ConflictStatus, TextChange};
use vstd::prelude::*;

verus! {

broadcast use vstd::std_specs::hash::group_hash_axioms;

/// The status of a branch.
#[derive(Clone, Copy, Debug, PartialEq, Eq, Structural)]
pub enum BranchStatus {
    Open,
    Merged,
    Recovered,
    RecoveryFailed,
    Closed,
}

/// The name of a branch status.
pub open spec fn branch_status_text(s: BranchStatus) -> Seq<char> {
    match s {
        BranchStatus::Open => "Open"@,
        BranchStatus::Merged => "Merged"@,
        BranchStatus::Recovered => "Recovered"@,
        BranchStatus::RecoveryFailed => "RecoveryFailed"@,
        BranchStatus::Closed => "Closed"@,
    }
}

impl BranchStatus {
    /// The status of a new branch, as stored: "Open".
    pub fn default() -> (s: Option<String>)
        ensures
            s matches Some(t) && t@ == branch_status_text(BranchStatus::Open),
    {
        Some(BranchStatus::Open.to_text())
    }

    /// The status's name, as stored on the branch.
    pub fn to_text(&self) -> (s: String)
        ensures
            s@ == branch_status_text(*self),
    {
        match self {
            BranchStatus::Open => text_from("Open"),
            BranchStatus::Merged => text_from("Merged"),
            BranchStatus::Recovered => text_from("Recovered"),
            BranchStatus::RecoveryFailed => text_from("RecoveryFailed"),
            BranchStatus::Closed => text_from("Closed"),
        }
    }

    /// The status a stored name stands for, if any.
    pub fn from_text(s: &str) -> (r: Option<BranchStatus>)
        ensures
            r matches Some(st) ==> branch_status_text(st) == s@,
            r is None ==> forall|st: BranchStatus| branch_status_text(st) != s@,
    {
        if text_eq(s, "Open") {
            Some(BranchStatus::Open)
        } else if text_eq(s, "Merged") {
            Some(BranchStatus::Merged)
        } else if text_eq(s, "Recovered") {
            Some(BranchStatus::Recovered)
        } else if text_eq(s, "RecoveryFailed") {
            Some(BranchStatus::RecoveryFailed)
        } else if text_eq(s, "Closed") {
            Some(BranchStatus::Closed)
        } else {
            proof {
                assert forall|st: BranchStatus| branch_status_text(st) != s@ by {
                    match st {
                        BranchStatus::Open => {},
                        BranchStatus::Merged => {},
                        BranchStatus::Recovered => {},
                        BranchStatus::RecoveryFailed => {},
                        BranchStatus::Closed => {},
                    }
                }
            }
            None
        }
    }
}

/// The kinds of objects a branch tracks.
#[derive(Clone, Copy, Debug, PartialEq, Eq, Structural)]
pub enum ObjectType {
    Node,
    Flow,
    FlowStep,
    Io,
    Workflow,
}

/// A branch with the changes it records. Every id is the 128-bit value of a UUID.
pub struct Branch {
    pub id: u128,
    pub node_id: u128,
    pub root_id: u128,
    pub title: Option<String>,
    pub description: Option<String>,
    pub status: Option<String>,
    pub owner_id: u128,
    pub editor_ids: Option<HashSet<u128>>,
    pub viewer_ids: Option<HashSet<u128>>,
    pub is_public: bool,
    pub is_contribution_request: Option<bool>,
    pub created_nodes: Option<HashSet<u128>>,
    pub restored_nodes: Option<HashSet<u128>>,
    pub deleted_nodes: Option<HashSet<u128>>,
    pub edited_title_nodes: Option<HashSet<u128>>,
    pub edited_description_nodes: Option<HashSet<u128>>,
    pub reordered_nodes: Option<Vec<BranchReorderData>>,
    pub edited_nodes: Option<HashSet<u128>>,
    pub edited_workflow_nodes: Option<HashSet<u128>>,
    /// node id -> initial input ids
    pub created_workflow_initial_inputs: Option<HashMap<u128, Vec<u128>>>,
    /// node id -> initial input ids
    pub deleted_workflow_initial_inputs: Option<HashMap<u128, Vec<u128>>>,
    pub created_flows: Option<HashSet<u128>>,
    pub deleted_flows: Option<HashSet<u128>>,
    pub restored_flows: Option<HashSet<u128>>,
    pub edited_title_flows: Option<HashSet<u128>>,
    pub edited_description_flows: Option<HashSet<u128>>,
    pub created_flow_steps: Option<HashSet<u128>>,
    pub deleted_flow_steps: Option<HashSet<u128>>,
    pub restored_flow_steps: Option<HashSet<u128>>,
    /// conflicting flow steps that were kept
    pub kept_flow_steps: Option<HashSet<u128>>,
    pub edited_description_flow_steps: Option<HashSet<u128>>,
    /// flow step id -> node ids
    pub created_flow_step_nodes: Option<HashMap<u128, HashSet<u128>>>,
    /// flow step id -> node ids
    pub deleted_flow_step_nodes: Option<HashMap<u128, HashSet<u128>>>,
    /// flow step id -> node id -> io ids
    pub created_flow_step_inputs_by_node: Option<HashMap<u128, HashMap<u128, HashSet<u128>>>>,
    /// flow step id -> node id -> io ids
    pub deleted_flow_step_inputs_by_node: Option<HashMap<u128, HashMap<u128, HashSet<u128>>>>,
    /// flow step id -> node id -> io ids
    pub created_flow_step_outputs_by_node: Option<HashMap<u128, HashMap<u128, HashSet<u128>>>>,
    /// flow step id -> node id -> io ids
    pub deleted_flow_step_outputs_by_node: Option<HashMap<u128, HashMap<u128, HashSet<u128>>>>,
    pub created_ios: Option<HashSet<u128>>,
    pub deleted_ios: Option<HashSet<u128>>,
    pub restored_ios: Option<HashSet<u128>>,
    pub edited_title_ios: Option<HashSet<u128>>,
    pub edited_description_ios: Option<HashSet<u128>>,
    pub conflict: Option<Conflict>,
    pub description_change_by_object: Option<HashMap<u128, TextChange>>,
    pub title_change_by_object: Option<HashMap<u128, TextChange>>,
}

/// The ids that `all_edited_description_ids` collects.
pub open spec fn spec_edited_description_ids(b: &Branch) -> Set<u128> {
    opt_set(b.edited_description_nodes) + opt_set(b.edited_description_flows) + opt_set(
        b.edited_description_flow_steps,
    ) + opt_set(b.edited_description_ios)
}

/// The ids that `all_deleted_object_ids` collects.
pub open spec fn spec_deleted_object_ids(b: &Branch) -> Set<u128> {
    opt_set(b.deleted_nodes) + opt_set(b.deleted_flows) + opt_set(b.deleted_flow_steps) + opt_set(
        b.deleted_ios,
    )
}

/// The set of ids a branch records as created for an object type.
pub open spec fn spec_created_ids(b: &Branch, t: ObjectType) -> Option<HashSet<u128>> {
    match t {
        ObjectType::Node => b.created_nodes,
        ObjectType::Flow => b.created_flows,
        ObjectType::FlowStep => b.created_flow_steps,
        ObjectType::Io => b.created_ios,
        ObjectType::Workflow => None,
    }
}

/// The set of ids a branch records as deleted for an object type.
pub open spec fn spec_deleted_ids(b: &Branch, t: ObjectType) -> Option<HashSet<u128>> {
    match t {
        ObjectType::Node => b.deleted_nodes,
        ObjectType::Flow => b.deleted_flows,
        ObjectType::FlowStep => b.deleted_flow_steps,
        ObjectType::Io => b.deleted_ios,
        ObjectType::Workflow => None,
    }
}

/// Whether a record of the given type and id is neither created nor deleted
/// on the branch, i.e. it exists in the original.
pub open spec fn is_original_record(b: &Branch, t: ObjectType, id: u128) -> bool {
    !opt_set(spec_created_ids(b, t)).contains(id) && !opt_set(spec_deleted_ids(b, t)).contains(id)
}

/// A record with an id.
pub trait HasId {
    spec fn spec_id(&self) -> u128;

    fn id(&self) -> (r: u128)
        ensures
            r == self.spec_id(),
    ;
}

/// The records of `records` that `keep` keeps, in their order.
pub open spec fn filter_records<R: HasId>(records: Seq<R>, b: &Branch, t: ObjectType) -> Seq<R>
    decreases records.len(),
{
    if records.len() == 0 {
        Seq::empty()
    } else {
        let rest = filter_records(records.drop_last(), b, t);
        if is_original_record(b, t, records.last().spec_id()) {
            rest.push(records.last())
        } else {
            rest
        }
    }
}

/// Adds the ids of an optional set to `s`.
fn extend_from(s: &mut HashSet<u128>, o: &Option<HashSet<u128>>)
    ensures
        final(s)@ == old(s)@ + opt_set(*o),
{
    match o {
        Some(t) => {
            let v = set_to_vec(t);
            add_all(s, &v);
        },
        None => {
            proof {
                assert(s@ + opt_set(*o) =~= s@);
            }
        },
    }
}

impl Branch {
    /// A new, open branch off `node_id` with nothing recorded on it.
    pub fn new(id: u128, node_id: u128, root_id: u128, owner_id: u128) -> (b: Branch)
        ensures
            b.id == id,
            b.node_id == node_id,
            b.root_id == root_id,
            b.owner_id == owner_id,
            b.status matches Some(s) && s@ == branch_status_text(BranchStatus::Open),
            b.conflict is None,
            spec_edited_description_ids(&b) == Set::<u128>::empty(),
            spec_deleted_object_ids(&b) == Set::<u128>::empty(),
    {
        let b = Branch {
            id,
            node_id,
            root_id,
            title: None,
            description: None,
            status: BranchStatus::default(),
            owner_id,
            editor_ids: None,
            viewer_ids: None,
            is_public: false,
            is_contribution_request: None,
            created_nodes: None,
            restored_nodes: None,
            deleted_nodes: None,
            edited_title_nodes: None,
            edited_description_nodes: None,
            reordered_nodes: None,
            edited_nodes: None,
            edited_workflow_nodes: None,
            created_workflow_initial_inputs: None,
            deleted_workflow_initial_inputs: None,
            created_flows: None,
            deleted_flows: None,
            restored_flows: None,
            edited_title_flows: None,
            edited_description_flows: None,
            created_flow_steps: None,
            deleted_flow_steps: None,
            restored_flow_steps: None,
            kept_flow_steps: None,
            edited_description_flow_steps: None,
            created_flow_step_nodes: None,
            deleted_flow_step_nodes: None,
            created_flow_step_inputs_by_node: None,
            deleted_flow_step_inputs_by_node: None,
            created_flow_step_outputs_by_node: None,
            deleted_flow_step_outputs_by_node: None,
            created_ios: None,
            deleted_ios: None,
            restored_ios: None,
            edited_title_ios: None,
            edited_description_ios: None,
            conflict: None,
            description_change_by_object: None,
            title_change_by_object: None,
        };
        proof {
            assert(spec_edited_description_ids(&b) =~= Set::<u128>::empty());
            assert(spec_deleted_object_ids(&b) =~= Set::<u128>::empty());
        }
        b
    }

    /// Whether the branch created the node `node_id` (the branch as loaded
    /// with its created nodes).
    pub fn contains_created_node(&self, node_id: u128) -> (b: bool)
        ensures
            b == opt_set(self.created_nodes).contains(node_id),
    {
        opt_contains(&self.created_nodes, node_id)
    }

    /// The ids of every node, flow, flow step and io whose description the
    /// branch edited.
    pub fn all_edited_description_ids(&self) -> (ids: HashSet<u128>)
        ensures
            ids@ == spec_edited_description_ids(self),
    {
        let mut ids = HashSet::new();
        extend_from(&mut ids, &self.edited_description_nodes);
        extend_from(&mut ids, &self.edited_description_flows);
        extend_from(&mut ids, &self.edited_description_flow_steps);
        extend_from(&mut ids, &self.edited_description_ios);
        proof {
            assert(ids@ =~= spec_edited_description_ids(self));
        }
        ids
    }

    /// The ids of every node, flow, flow step and io the branch deleted.
    pub fn all_deleted_object_ids(&self) -> (ids: HashSet<u128>)
        ensures
            ids@ == spec_deleted_object_ids(self),
    {
        let mut ids = HashSet::new();
        extend_from(&mut ids, &self.deleted_nodes);
        extend_from(&mut ids, &self.deleted_flows);
        extend_from(&mut ids, &self.deleted_flow_steps);
        extend_from(&mut ids, &self.deleted_ios);
        proof {
            assert(ids@ =~= spec_deleted_object_ids(self));
        }
        ids
    }

    /// The ids the branch created of one object type (workflows have none).
    pub fn created_ids(&self, object_type: ObjectType) -> (r: &Option<HashSet<u128>>)
        ensures
            *r == spec_created_ids(self, object_type),
    {
        match object_type {
            ObjectType::Node => &self.created_nodes,
            ObjectType::Flow => &self.created_flows,
            ObjectType::FlowStep => &self.created_flow_steps,
            ObjectType::Io => &self.created_ios,
            ObjectType::Workflow => &None,
        }
    }

    /// The ids the branch deleted of one object type (workflows have none).
    pub fn deleted_ids(&self, object_type: ObjectType) -> (r: &Option<HashSet<u128>>)
        ensures
            *r == spec_deleted_ids(self, object_type),
    {
        match object_type {
            ObjectType::Node => &self.deleted_nodes,
            ObjectType::Flow => &self.deleted_flows,
            ObjectType::FlowStep => &self.deleted_flow_steps,
            ObjectType::Io => &self.deleted_ios,
            ObjectType::Workflow => &None,
        }
    }

    /// The records that exist in the original: those the branch neither
    /// created nor deleted, in their order.
    pub fn map_original_records<R: HasId>(&self, records: Vec<R>, object_type: ObjectType) -> (r: Vec<R>)
        ensures
            r@ == filter_records(records@, self, object_type),
    {
        let created = self.created_ids(object_type);
        let deleted = self.deleted_ids(object_type);
        let ghost all = records@;
        let mut out: Vec<R> = Vec::new();
        let mut records = records;
        while records.len() > 0
            invariant
                all.len() >= records@.len(),
                all == all.subrange(0, all.len() - records@.len()) + records@,
                out@ == filter_records(all.subrange(0, all.len() - records@.len()), self, object_type),
                *created == spec_created_ids(self, object_type),
                *deleted == spec_deleted_ids(self, object_type),
            decreases records.len(),
        {
            let ghost k = all.len() - records@.len();
            let r = records.remove(0);
            proof {
                assert(all[k] == r);
                assert(all.subrange(0, k + 1).drop_last() =~= all.subrange(0, k));
                assert(all.subrange(0, k + 1).last() == r);
                assert(all =~= all.subrange(0, all.len() - records@.len()) + records@);
            }
            let id = r.id();
            if !opt_contains(created, id) && !opt_contains(deleted, id) {
                out.push(r);
            }
        }
        proof {
            assert(all.subrange(0, all.len() as int) =~= all);
        }
        out
    }

    /// Fails with a conflict error while the branch holds conflicts.
    pub fn validate_no_existing_conflicts(&self) -> (r: Result<(), crate::errors::NodecosmosError>)
        ensures
            r is Err <==> self.conflict is Some,
            r matches Err(e) ==> (e matches crate::errors::NodecosmosError::Conflict(m) && m@ == "Conflicts not resolved"@),
    {
        if self.conflict.is_some() {
            return Err(crate::errors::NodecosmosError::Conflict(text_from("Conflicts not resolved")));
        }
        Ok(())
    }
}

} // verus!
