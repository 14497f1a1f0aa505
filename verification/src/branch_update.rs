//! The changes a branch records, and how each one changes the branch.
use std::collections::{HashMap, HashSet};
use crate::branch::Branch;
use crate::ids::{opt_set, opt_map, opt_add_all, opt_remove_all, opt_map_put_all, opt_map_remove_keys, set_to_vec, map_keys};
use crate::udts::{BranchReorderData, Conflict, TextChange};
use vstd::prelude::*;

verus! {

broadcast use vstd::std_specs::hash::group_hash_axioms;

/// One change recorded on a branch.
pub enum BranchUpdate {
    /// A node and the ids of its ancestors, which count as edited.
    CreateNode((u128, HashSet<u128>)),
    DeleteNodes(Vec<u128>),
    UndoDeleteNodes(Vec<u128>),
    RestoreNode(u128),
    EditNodeTitle(u128),
    EditNodeDescription(u128),
    ReorderNode(BranchReorderData),
    EditNode(u128),
    /// A node whose workflow (flows, flow steps, ios) the branch edited.
    EditNodeWorkflow(u128),
    CreateWorkflowInitialInputs(HashMap<u128, Vec<u128>>),
    DeleteWorkflowInitialInputs(HashMap<u128, Vec<u128>>),
    CreateFlow(u128),
    DeleteFlow(u128),
    UndoDeleteFlow(u128),
    RestoreFlow(u128),
    EditFlowTitle(u128),
    EditFlowDescription(u128),
    CreateFlowStep(u128),
    DeleteFlowStep(u128),
    UndoDeleteFlowStep(u128),
    RestoreFlowStep(u128),
    KeepFlowStep(u128),
    CreateFlowStepNodes(HashMap<u128, HashSet<u128>>),
    DeleteFlowStepNodes(HashMap<u128, HashSet<u128>>),
    CreateFlowStepInputs(HashMap<u128, HashMap<u128, HashSet<u128>>>),
    DeleteFlowStepInputs(HashMap<u128, HashMap<u128, HashSet<u128>>>),
    CreateFlowStepOutputs(HashMap<u128, HashMap<u128, HashSet<u128>>>),
    DeletedFlowStepOutputs(HashMap<u128, HashMap<u128, HashSet<u128>>>),
    EditFlowStepDescription(u128),
    CreateIo(u128),
    DeleteIo(u128),
    UndoDeleteIo(u128),
    RestoreIo(u128),
    EditIoTitle(u128),
    EditIoDescription(u128),
}

/// A branch as its changes see it: each recorded id set as a set (an absent
/// set is empty), each recorded map as a map, and the other fields as they are.
#[verifier::ext_equal]
pub struct BranchModel {
    pub id: u128,
    pub node_id: u128,
    pub root_id: u128,
    pub title: Option<String>,
    pub description: Option<String>,
    pub status: Option<String>,
    pub owner_id: u128,
    pub editor_ids: Option<HashSet<u128>>,
    pub viewer_ids: Option<HashSet<u128>>,
    pub is_public: bool,
    pub is_contribution_request: Option<bool>,
    pub edited_workflow_nodes: Option<Set<u128>>,
    pub conflict: Option<Conflict>,
    pub description_change_by_object: Option<HashMap<u128, TextChange>>,
    pub title_change_by_object: Option<HashMap<u128, TextChange>>,
    pub created_nodes: Set<u128>,
    pub restored_nodes: Set<u128>,
    pub deleted_nodes: Set<u128>,
    pub edited_title_nodes: Set<u128>,
    pub edited_description_nodes: Set<u128>,
    pub reordered_nodes: Seq<BranchReorderData>,
    pub edited_nodes: Set<u128>,
    pub created_workflow_initial_inputs: Map<u128, Vec<u128>>,
    pub deleted_workflow_initial_inputs: Map<u128, Vec<u128>>,
    pub created_flows: Set<u128>,
    pub deleted_flows: Set<u128>,
    pub restored_flows: Set<u128>,
    pub edited_title_flows: Set<u128>,
    pub edited_description_flows: Set<u128>,
    pub created_flow_steps: Set<u128>,
    pub deleted_flow_steps: Set<u128>,
    pub restored_flow_steps: Set<u128>,
    pub kept_flow_steps: Set<u128>,
    pub edited_description_flow_steps: Set<u128>,
    pub created_flow_step_nodes: Map<u128, HashSet<u128>>,
    pub deleted_flow_step_nodes: Map<u128, HashSet<u128>>,
    pub created_flow_step_inputs_by_node: Map<u128, HashMap<u128, HashSet<u128>>>,
    pub deleted_flow_step_inputs_by_node: Map<u128, HashMap<u128, HashSet<u128>>>,
    pub created_flow_step_outputs_by_node: Map<u128, HashMap<u128, HashSet<u128>>>,
    pub deleted_flow_step_outputs_by_node: Map<u128, HashMap<u128, HashSet<u128>>>,
    pub created_ios: Set<u128>,
    pub deleted_ios: Set<u128>,
    pub restored_ios: Set<u128>,
    pub edited_title_ios: Set<u128>,
    pub edited_description_ios: Set<u128>,
}

/// The reorder records of `s` except those for node `id`, in their order.
pub open spec fn reorders_without(s: Seq<BranchReorderData>, id: u128) -> Seq<BranchReorderData>
    decreases s.len(),
{
    if s.len() == 0 {
        Seq::empty()
    } else {
        let rest = reorders_without(s.drop_last(), id);
        if s.last().id != id {
            rest.push(s.last())
        } else {
            rest
        }
    }
}

/// The model of a branch.
pub open spec fn branch_model(b: &Branch) -> BranchModel {
    BranchModel {
        id: b.id,
        node_id: b.node_id,
        root_id: b.root_id,
        title: b.title,
        description: b.description,
        status: b.status,
        owner_id: b.owner_id,
        editor_ids: b.editor_ids,
        viewer_ids: b.viewer_ids,
        is_public: b.is_public,
        is_contribution_request: b.is_contribution_request,
        edited_workflow_nodes: match b.edited_workflow_nodes {
            Some(s) => Some(s@),
            None => None,
        },
        conflict: b.conflict,
        description_change_by_object: b.description_change_by_object,
        title_change_by_object: b.title_change_by_object,
        created_nodes: opt_set(b.created_nodes),
        restored_nodes: opt_set(b.restored_nodes),
        deleted_nodes: opt_set(b.deleted_nodes),
        edited_title_nodes: opt_set(b.edited_title_nodes),
        edited_description_nodes: opt_set(b.edited_description_nodes),
        reordered_nodes: match b.reordered_nodes {
            Some(v) => v@,
            None => Seq::empty(),
        },
        edited_nodes: opt_set(b.edited_nodes),
        created_workflow_initial_inputs: opt_map(b.created_workflow_initial_inputs),
        deleted_workflow_initial_inputs: opt_map(b.deleted_workflow_initial_inputs),
        created_flows: opt_set(b.created_flows),
        deleted_flows: opt_set(b.deleted_flows),
        restored_flows: opt_set(b.restored_flows),
        edited_title_flows: opt_set(b.edited_title_flows),
        edited_description_flows: opt_set(b.edited_description_flows),
        created_flow_steps: opt_set(b.created_flow_steps),
        deleted_flow_steps: opt_set(b.deleted_flow_steps),
        restored_flow_steps: opt_set(b.restored_flow_steps),
        kept_flow_steps: opt_set(b.kept_flow_steps),
        edited_description_flow_steps: opt_set(b.edited_description_flow_steps),
        created_flow_step_nodes: opt_map(b.created_flow_step_nodes),
        deleted_flow_step_nodes: opt_map(b.deleted_flow_step_nodes),
        created_flow_step_inputs_by_node: opt_map(b.created_flow_step_inputs_by_node),
        deleted_flow_step_inputs_by_node: opt_map(b.deleted_flow_step_inputs_by_node),
        created_flow_step_outputs_by_node: opt_map(b.created_flow_step_outputs_by_node),
        deleted_flow_step_outputs_by_node: opt_map(b.deleted_flow_step_outputs_by_node),
        created_ios: opt_set(b.created_ios),
        deleted_ios: opt_set(b.deleted_ios),
        restored_ios: opt_set(b.restored_ios),
        edited_title_ios: opt_set(b.edited_title_ios),
        edited_description_ios: opt_set(b.edited_description_ios),
    }
}

/// How a change transforms a branch: ids are added to and taken out of the
/// recorded sets, map entries are put (replacing entries with the same key)
/// and taken out by key, and a reorder replaces the earlier reorder of the
/// same node at the end of the list.
pub open spec fn spec_update(m: BranchModel, u: BranchUpdate) -> BranchModel {
    match u {
        BranchUpdate::CreateNode((id, ancestors)) => BranchModel {
            created_nodes: m.created_nodes.insert(id),
            edited_nodes: m.edited_nodes + ancestors@,
            ..m
        },
        BranchUpdate::DeleteNodes(ids) => BranchModel {
            deleted_nodes: m.deleted_nodes + ids@.to_set(),
            restored_nodes: m.restored_nodes - ids@.to_set(),
            edited_nodes: m.edited_nodes - ids@.to_set(),
            ..m
        },
        BranchUpdate::UndoDeleteNodes(ids) => BranchModel {
            deleted_nodes: m.deleted_nodes - ids@.to_set(),
            ..m
        },
        BranchUpdate::RestoreNode(id) => BranchModel {
            restored_nodes: m.restored_nodes.insert(id),
            deleted_nodes: m.deleted_nodes.remove(id),
            ..m
        },
        BranchUpdate::EditNodeTitle(id) => BranchModel {
            edited_title_nodes: m.edited_title_nodes.insert(id),
            ..m
        },
        BranchUpdate::EditNodeDescription(id) => BranchModel {
            edited_description_nodes: m.edited_description_nodes.insert(id),
            ..m
        },
        BranchUpdate::ReorderNode(data) => BranchModel {
            reordered_nodes: reorders_without(m.reordered_nodes, data.id).push(data),
            ..m
        },
        BranchUpdate::EditNode(id) => BranchModel { edited_nodes: m.edited_nodes.insert(id), ..m },
        BranchUpdate::EditNodeWorkflow(id) => BranchModel {
            edited_workflow_nodes: Some(
                match m.edited_workflow_nodes {
                    Some(s) => s.insert(id),
                    None => set![id],
                },
            ),
            ..m
        },
        BranchUpdate::CreateWorkflowInitialInputs(inputs) => BranchModel {
            created_workflow_initial_inputs: m.created_workflow_initial_inputs.union_prefer_right(
                inputs@,
            ),
            ..m
        },
        BranchUpdate::DeleteWorkflowInitialInputs(inputs) => BranchModel {
            deleted_workflow_initial_inputs: m.deleted_workflow_initial_inputs.union_prefer_right(
                inputs@,
            ),
            ..m
        },
        BranchUpdate::CreateFlow(id) => BranchModel { created_flows: m.created_flows.insert(id), ..m },
        BranchUpdate::DeleteFlow(id) => BranchModel {
            deleted_flows: m.deleted_flows.insert(id),
            created_flows: m.created_flows.remove(id),
            restored_flows: m.restored_flows.remove(id),
            ..m
        },
        BranchUpdate::UndoDeleteFlow(id) => BranchModel {
            deleted_flows: m.deleted_flows.remove(id),
            ..m
        },
        BranchUpdate::RestoreFlow(id) => BranchModel {
            restored_flows: m.restored_flows.insert(id),
            deleted_flows: m.deleted_flows.remove(id),
            ..m
        },
        BranchUpdate::EditFlowTitle(id) => BranchModel {
            edited_title_flows: m.edited_title_flows.insert(id),
            ..m
        },
        BranchUpdate::EditFlowDescription(id) => BranchModel {
            edited_description_flows: m.edited_description_flows.insert(id),
            ..m
        },
        BranchUpdate::CreateFlowStep(id) => BranchModel {
            created_flow_steps: m.created_flow_steps.insert(id),
            ..m
        },
        BranchUpdate::DeleteFlowStep(id) => BranchModel {
            deleted_flow_steps: m.deleted_flow_steps.insert(id),
            created_flow_steps: m.created_flow_steps.remove(id),
            restored_flow_steps: m.restored_flow_steps.remove(id),
            ..m
        },
        BranchUpdate::UndoDeleteFlowStep(id) => BranchModel {
            deleted_flow_steps: m.deleted_flow_steps.remove(id),
            ..m
        },
        BranchUpdate::RestoreFlowStep(id) => BranchModel {
            restored_flow_steps: m.restored_flow_steps.insert(id),
            deleted_flow_steps: m.deleted_flow_steps.remove(id),
            ..m
        },
        BranchUpdate::KeepFlowStep(id) => BranchModel {
            kept_flow_steps: m.kept_flow_steps.insert(id),
            ..m
        },
        BranchUpdate::CreateFlowStepNodes(nodes) => BranchModel {
            created_flow_step_nodes: m.created_flow_step_nodes.union_prefer_right(nodes@),
            deleted_flow_step_nodes: m.deleted_flow_step_nodes.remove_keys(nodes@.dom()),
            ..m
        },
        BranchUpdate::DeleteFlowStepNodes(nodes) => BranchModel {
            deleted_flow_step_nodes: m.deleted_flow_step_nodes.union_prefer_right(nodes@),
            created_flow_step_nodes: m.created_flow_step_nodes.remove_keys(nodes@.dom()),
            ..m
        },
        BranchUpdate::CreateFlowStepInputs(ios) => BranchModel {
            created_flow_step_inputs_by_node: m.created_flow_step_inputs_by_node.union_prefer_right(
                ios@,
            ),
            ..m
        },
        BranchUpdate::DeleteFlowStepInputs(ios) => BranchModel {
            deleted_flow_step_inputs_by_node: m.deleted_flow_step_inputs_by_node.union_prefer_right(
                ios@,
            ),
            ..m
        },
        BranchUpdate::CreateFlowStepOutputs(ios) => BranchModel {
            created_flow_step_outputs_by_node: m.created_flow_step_outputs_by_node.union_prefer_right(
                ios@,
            ),
            ..m
        },
        BranchUpdate::DeletedFlowStepOutputs(ios) => BranchModel {
            deleted_flow_step_outputs_by_node: m.deleted_flow_step_outputs_by_node.union_prefer_right(
                ios@,
            ),
            ..m
        },
        BranchUpdate::EditFlowStepDescription(id) => BranchModel {
            edited_description_flow_steps: m.edited_description_flow_steps.insert(id),
            ..m
        },
        BranchUpdate::CreateIo(id) => BranchModel { created_ios: m.created_ios.insert(id), ..m },
        BranchUpdate::DeleteIo(id) => BranchModel {
            deleted_ios: m.deleted_ios.insert(id),
            created_ios: m.created_ios.remove(id),
            restored_ios: m.restored_ios.remove(id),
            ..m
        },
        BranchUpdate::UndoDeleteIo(id) => BranchModel { deleted_ios: m.deleted_ios.remove(id), ..m },
        BranchUpdate::RestoreIo(id) => BranchModel {
            restored_ios: m.restored_ios.insert(id),
            deleted_ios: m.deleted_ios.remove(id),
            ..m
        },
        BranchUpdate::EditIoTitle(id) => BranchModel {
            edited_title_ios: m.edited_title_ios.insert(id),
            ..m
        },
        BranchUpdate::EditIoDescription(id) => BranchModel {
            edited_description_ios: m.edited_description_ios.insert(id),
            ..m
        },
    }
}

/// Whether a change calls for the branch's conflicts to be checked again:
/// deleting, undoing a deletion (except of an io), restoring, reordering a
/// node and keeping a flow step.
pub open spec fn spec_checks_conflicts(u: BranchUpdate) -> bool {
    match u {
        BranchUpdate::DeleteNodes(_) | BranchUpdate::UndoDeleteNodes(_) | BranchUpdate::RestoreNode(_)
        | BranchUpdate::ReorderNode(_) | BranchUpdate::UndoDeleteFlow(_) | BranchUpdate::RestoreFlow(_)
        | BranchUpdate::DeleteFlowStep(_) | BranchUpdate::UndoDeleteFlowStep(_)
        | BranchUpdate::RestoreFlowStep(_) | BranchUpdate::KeepFlowStep(_) | BranchUpdate::DeleteIo(_)
        | BranchUpdate::RestoreIo(_) => true,
        _ => false,
    }
}

/// The reorder records of `v` except those for node `id`, with `data` last.
fn replace_reorder(v: Option<Vec<BranchReorderData>>, data: BranchReorderData) -> (r: Vec<
    BranchReorderData,
>)
    ensures
        r@ == reorders_without(
            match v {
                Some(v) => v@,
                None => Seq::empty(),
            },
            data.id,
        ).push(data),
{
    let old = match v {
        Some(v) => v,
        None => Vec::new(),
    };
    let mut out: Vec<BranchReorderData> = Vec::new();
    let mut i: usize = 0;
    while i < old.len()
        invariant
            i <= old.len(),
            out@ == reorders_without(old@.take(i as int), data.id),
        decreases old.len() - i,
    {
        proof {
            assert(old@.take(i as int + 1).drop_last() =~= old@.take(i as int));
        }
        if old[i].id != data.id {
            out.push(old[i]);
        }
        i = i + 1;
    }
    proof {
        assert(old@.take(old@.len() as int) =~= old@);
    }
    out.push(data);
    out
}

impl Branch {
    /// Records one change on the branch, and tells whether the branch's
    /// conflicts must be checked again.
    pub fn update(&mut self, update: BranchUpdate) -> (check_conflicts: bool)
        ensures
            branch_model(final(self)) == spec_update(branch_model(old(self)), update),
            check_conflicts == spec_checks_conflicts(update),
    {
        let ghost u = update;
        match update {
            BranchUpdate::CreateNode((id, ancestor_ids)) => {
                let ids = vec![id];
                opt_add_all(&mut self.created_nodes, &ids);
                let ancestors = set_to_vec(&ancestor_ids);
                opt_add_all(&mut self.edited_nodes, &ancestors);
                proof {
                    assert(ids@.to_set() =~= Set::empty().insert(id));
                }
                false
            },
            BranchUpdate::DeleteNodes(ids) => {
                opt_add_all(&mut self.deleted_nodes, &ids);
                opt_remove_all(&mut self.restored_nodes, &ids);
                opt_remove_all(&mut self.edited_nodes, &ids);
                true
            },
            BranchUpdate::UndoDeleteNodes(ids) => {
                opt_remove_all(&mut self.deleted_nodes, &ids);
                true
            },
            BranchUpdate::RestoreNode(id) => {
                let ids = vec![id];
                opt_add_all(&mut self.restored_nodes, &ids);
                opt_remove_all(&mut self.deleted_nodes, &ids);
                proof {
                    assert(ids@.to_set() =~= Set::empty().insert(id));
                }
                true
            },
            BranchUpdate::EditNodeTitle(id) => {
                let ids = vec![id];
                opt_add_all(&mut self.edited_title_nodes, &ids);
                proof {
                    assert(ids@.to_set() =~= Set::empty().insert(id));
                }
                false
            },
            BranchUpdate::EditNodeDescription(id) => {
                let ids = vec![id];
                opt_add_all(&mut self.edited_description_nodes, &ids);
                proof {
                    assert(ids@.to_set() =~= Set::empty().insert(id));
                }
                false
            },
            BranchUpdate::ReorderNode(reorder_data) => {
                let old = self.reordered_nodes.take();
                self.reordered_nodes = Some(replace_reorder(old, reorder_data));
                true
            },
            BranchUpdate::EditNode(id) => {
                let ids = vec![id];
                opt_add_all(&mut self.edited_nodes, &ids);
                proof {
                    assert(ids@.to_set() =~= Set::empty().insert(id));
                }
                false
            },
            BranchUpdate::EditNodeWorkflow(id) => {
                let ids = vec![id];
                opt_add_all(&mut self.edited_workflow_nodes, &ids);
                proof {
                    assert(ids@.to_set() =~= Set::empty().insert(id));
                    assert(self.edited_workflow_nodes is Some);
                }
                false
            },
            BranchUpdate::CreateWorkflowInitialInputs(inputs) => {
                opt_map_put_all(&mut self.created_workflow_initial_inputs, inputs);
                false
            },
            BranchUpdate::DeleteWorkflowInitialInputs(inputs) => {
                opt_map_put_all(&mut self.deleted_workflow_initial_inputs, inputs);
                false
            },
            BranchUpdate::CreateFlow(id) => {
                let ids = vec![id];
                opt_add_all(&mut self.created_flows, &ids);
                proof {
                    assert(ids@.to_set() =~= Set::empty().insert(id));
                }
                false
            },
            BranchUpdate::DeleteFlow(id) => {
                let ids = vec![id];
                opt_add_all(&mut self.deleted_flows, &ids);
                opt_remove_all(&mut self.created_flows, &ids);
                opt_remove_all(&mut self.restored_flows, &ids);
                proof {
                    assert(ids@.to_set() =~= Set::empty().insert(id));
                }
                false
            },
            BranchUpdate::UndoDeleteFlow(id) => {
                let ids = vec![id];
                opt_remove_all(&mut self.deleted_flows, &ids);
                proof {
                    assert(ids@.to_set() =~= Set::empty().insert(id));
                }
                true
            },
            BranchUpdate::RestoreFlow(id) => {
                let ids = vec![id];
                opt_add_all(&mut self.restored_flows, &ids);
                opt_remove_all(&mut self.deleted_flows, &ids);
                proof {
                    assert(ids@.to_set() =~= Set::empty().insert(id));
                }
                true
            },
            BranchUpdate::EditFlowTitle(id) => {
                let ids = vec![id];
                opt_add_all(&mut self.edited_title_flows, &ids);
                proof {
                    assert(ids@.to_set() =~= Set::empty().insert(id));
                }
                false
            },
            BranchUpdate::EditFlowDescription(id) => {
                let ids = vec![id];
                opt_add_all(&mut self.edited_description_flows, &ids);
                proof {
                    assert(ids@.to_set() =~= Set::empty().insert(id));
                }
                false
            },
            BranchUpdate::CreateFlowStep(id) => {
                let ids = vec![id];
                opt_add_all(&mut self.created_flow_steps, &ids);
                proof {
                    assert(ids@.to_set() =~= Set::empty().insert(id));
                }
                false
            },
            BranchUpdate::DeleteFlowStep(id) => {
                let ids = vec![id];
                opt_add_all(&mut self.deleted_flow_steps, &ids);
                opt_remove_all(&mut self.created_flow_steps, &ids);
                opt_remove_all(&mut self.restored_flow_steps, &ids);
                proof {
                    assert(ids@.to_set() =~= Set::empty().insert(id));
                }
                true
            },
            BranchUpdate::UndoDeleteFlowStep(id) => {
                let ids = vec![id];
                opt_remove_all(&mut self.deleted_flow_steps, &ids);
                proof {
                    assert(ids@.to_set() =~= Set::empty().insert(id));
                }
                true
            },
            BranchUpdate::RestoreFlowStep(id) => {
                let ids = vec![id];
                opt_add_all(&mut self.restored_flow_steps, &ids);
                opt_remove_all(&mut self.deleted_flow_steps, &ids);
                proof {
                    assert(ids@.to_set() =~= Set::empty().insert(id));
                }
                true
            },
            BranchUpdate::KeepFlowStep(id) => {
                let ids = vec![id];
                opt_add_all(&mut self.kept_flow_steps, &ids);
                proof {
                    assert(ids@.to_set() =~= Set::empty().insert(id));
                }
                true
            },
            BranchUpdate::CreateFlowStepNodes(nodes) => {
                let keys = map_keys(&nodes);
                opt_map_put_all(&mut self.created_flow_step_nodes, nodes);
                opt_map_remove_keys(&mut self.deleted_flow_step_nodes, &keys);
                false
            },
            BranchUpdate::DeleteFlowStepNodes(nodes) => {
                let keys = map_keys(&nodes);
                opt_map_put_all(&mut self.deleted_flow_step_nodes, nodes);
                opt_map_remove_keys(&mut self.created_flow_step_nodes, &keys);
                false
            },
            BranchUpdate::CreateFlowStepInputs(ios) => {
                opt_map_put_all(&mut self.created_flow_step_inputs_by_node, ios);
                false
            },
            BranchUpdate::DeleteFlowStepInputs(ios) => {
                opt_map_put_all(&mut self.deleted_flow_step_inputs_by_node, ios);
                false
            },
            BranchUpdate::CreateFlowStepOutputs(ios) => {
                opt_map_put_all(&mut self.created_flow_step_outputs_by_node, ios);
                false
            },
            BranchUpdate::DeletedFlowStepOutputs(ios) => {
                opt_map_put_all(&mut self.deleted_flow_step_outputs_by_node, ios);
                false
            },
            BranchUpdate::EditFlowStepDescription(id) => {
                let ids = vec![id];
                opt_add_all(&mut self.edited_description_flow_steps, &ids);
                proof {
                    assert(ids@.to_set() =~= Set::empty().insert(id));
                }
                false
            },
            BranchUpdate::CreateIo(id) => {
                let ids = vec![id];
                opt_add_all(&mut self.created_ios, &ids);
                proof {
                    assert(ids@.to_set() =~= Set::empty().insert(id));
                }
                false
            },
            BranchUpdate::DeleteIo(id) => {
                let ids = vec![id];
                opt_add_all(&mut self.deleted_ios, &ids);
                opt_remove_all(&mut self.created_ios, &ids);
                opt_remove_all(&mut self.restored_ios, &ids);
                proof {
                    assert(ids@.to_set() =~= Set::empty().insert(id));
                }
                true
            },
            BranchUpdate::UndoDeleteIo(id) => {
                let ids = vec![id];
                opt_remove_all(&mut self.deleted_ios, &ids);
                proof {
                    assert(ids@.to_set() =~= Set::empty().insert(id));
                }
                false
            },
            BranchUpdate::RestoreIo(id) => {
                let ids = vec![id];
                opt_add_all(&mut self.restored_ios, &ids);
                opt_remove_all(&mut self.deleted_ios, &ids);
                proof {
                    assert(ids@.to_set() =~= Set::empty().insert(id));
                }
                true
            },
            BranchUpdate::EditIoTitle(id) => {
                let ids = vec![id];
                opt_add_all(&mut self.edited_title_ios, &ids);
                proof {
                    assert(ids@.to_set() =~= Set::empty().insert(id));
                }
                false
            },
            BranchUpdate::EditIoDescription(id) => {
                let ids = vec![id];
                opt_add_all(&mut self.edited_description_ios, &ids);
                proof {
                    assert(ids@.to_set() =~= Set::empty().insert(id));
                }
                false
            },
        }
    }
}

/// Removing a node's reorder records keeps none of them.
proof fn lemma_reorders_without_drops(s: Seq<BranchReorderData>, id: u128)
    ensures
        forall|i: int| 0 <= i < reorders_without(s, id).len() ==> #[trigger] reorders_without(s, id)[i].id != id,
    decreases s.len(),
{
    if s.len() > 0 {
        lemma_reorders_without_drops(s.drop_last(), id);
    }
}

/// Removing a node's reorder records from a list that has none changes nothing.
proof fn lemma_reorders_without_none(s: Seq<BranchReorderData>, id: u128)
    requires
        forall|i: int| 0 <= i < s.len() ==> #[trigger] s[i].id != id,
    ensures
        reorders_without(s, id) == s,
    decreases s.len(),
{
    if s.len() > 0 {
        lemma_reorders_without_none(s.drop_last(), id);
        assert(s.drop_last().push(s.last()) =~= s);
    }
}

/// Every change is idempotent: recording the same change twice leaves the
/// branch as recording it once.
pub proof fn lemma_update_idempotent(m: BranchModel, u: BranchUpdate)
    ensures
        spec_update(spec_update(m, u), u) == spec_update(m, u),
{
    match u {
        BranchUpdate::ReorderNode(data) => {
            let kept = reorders_without(m.reordered_nodes, data.id);
            lemma_reorders_without_drops(m.reordered_nodes, data.id);
            lemma_reorders_without_none(kept, data.id);
            assert(kept.push(data).drop_last() =~= kept);
            assert(reorders_without(kept.push(data), data.id) == kept);
        },
        BranchUpdate::CreateFlowStepNodes(nodes) => {
            let a = spec_update(m, u);
            assert(a.created_flow_step_nodes.union_prefer_right(nodes@) =~= a.created_flow_step_nodes);
            assert(a.deleted_flow_step_nodes.remove_keys(nodes@.dom()) =~= a.deleted_flow_step_nodes);
        },
        BranchUpdate::DeleteFlowStepNodes(nodes) => {
            let a = spec_update(m, u);
            assert(a.deleted_flow_step_nodes.union_prefer_right(nodes@) =~= a.deleted_flow_step_nodes);
            assert(a.created_flow_step_nodes.remove_keys(nodes@.dom()) =~= a.created_flow_step_nodes);
        },
        BranchUpdate::CreateWorkflowInitialInputs(i) => {
            let a = spec_update(m, u);
            assert(a.created_workflow_initial_inputs.union_prefer_right(i@) =~= a.created_workflow_initial_inputs);
        },
        BranchUpdate::DeleteWorkflowInitialInputs(i) => {
            let a = spec_update(m, u);
            assert(a.deleted_workflow_initial_inputs.union_prefer_right(i@) =~= a.deleted_workflow_initial_inputs);
        },
        BranchUpdate::CreateFlowStepInputs(i) => {
            let a = spec_update(m, u);
            assert(a.created_flow_step_inputs_by_node.union_prefer_right(i@) =~= a.created_flow_step_inputs_by_node);
        },
        BranchUpdate::DeleteFlowStepInputs(i) => {
            let a = spec_update(m, u);
            assert(a.deleted_flow_step_inputs_by_node.union_prefer_right(i@) =~= a.deleted_flow_step_inputs_by_node);
        },
        BranchUpdate::CreateFlowStepOutputs(i) => {
            let a = spec_update(m, u);
            assert(a.created_flow_step_outputs_by_node.union_prefer_right(i@) =~= a.created_flow_step_outputs_by_node);
        },
        BranchUpdate::DeletedFlowStepOutputs(i) => {
            let a = spec_update(m, u);
            assert(a.deleted_flow_step_outputs_by_node.union_prefer_right(i@) =~= a.deleted_flow_step_outputs_by_node);
        },
        _ => {
            assert(spec_update(spec_update(m, u), u) =~= spec_update(m, u));
        },
    }
}

/// A deleted flow, flow step or io is recorded as deleted and no longer as
/// created or restored; a restored one is recorded as restored and no longer
/// as deleted.
pub proof fn lemma_delete_and_restore_exclusive(m: BranchModel, id: u128)
    ensures
        spec_update(m, BranchUpdate::DeleteFlow(id)).deleted_flows.contains(id),
        !spec_update(m, BranchUpdate::DeleteFlow(id)).created_flows.contains(id),
        !spec_update(m, BranchUpdate::DeleteFlow(id)).restored_flows.contains(id),
        spec_update(m, BranchUpdate::RestoreFlow(id)).restored_flows.contains(id),
        !spec_update(m, BranchUpdate::RestoreFlow(id)).deleted_flows.contains(id),
        spec_update(m, BranchUpdate::DeleteFlowStep(id)).deleted_flow_steps.contains(id),
        !spec_update(m, BranchUpdate::DeleteFlowStep(id)).created_flow_steps.contains(id),
        !spec_update(m, BranchUpdate::DeleteFlowStep(id)).restored_flow_steps.contains(id),
        spec_update(m, BranchUpdate::RestoreFlowStep(id)).restored_flow_steps.contains(id),
        !spec_update(m, BranchUpdate::RestoreFlowStep(id)).deleted_flow_steps.contains(id),
        spec_update(m, BranchUpdate::DeleteIo(id)).deleted_ios.contains(id),
        !spec_update(m, BranchUpdate::DeleteIo(id)).created_ios.contains(id),
        !spec_update(m, BranchUpdate::DeleteIo(id)).restored_ios.contains(id),
        spec_update(m, BranchUpdate::RestoreIo(id)).restored_ios.contains(id),
        !spec_update(m, BranchUpdate::RestoreIo(id)).deleted_ios.contains(id),
        spec_update(m, BranchUpdate::RestoreNode(id)).restored_nodes.contains(id),
        !spec_update(m, BranchUpdate::RestoreNode(id)).deleted_nodes.contains(id),
{
}

/// Deleted nodes are recorded as deleted and no longer as restored or edited.
pub proof fn lemma_delete_nodes(m: BranchModel, ids: Vec<u128>, id: u128)
    requires
        ids@.contains(id),
    ensures
        spec_update(m, BranchUpdate::DeleteNodes(ids)).deleted_nodes.contains(id),
        !spec_update(m, BranchUpdate::DeleteNodes(ids)).restored_nodes.contains(id),
        !spec_update(m, BranchUpdate::DeleteNodes(ids)).edited_nodes.contains(id),
{
}

/// Undoing a deletion takes the object out of the deleted set, so a deletion
/// followed by its undo leaves the deleted set as it was without the object.
pub proof fn lemma_undo_delete_reverts(m: BranchModel, id: u128)
    ensures
        spec_update(spec_update(m, BranchUpdate::DeleteFlow(id)), BranchUpdate::UndoDeleteFlow(id)).deleted_flows
            == m.deleted_flows.remove(id),
        spec_update(spec_update(m, BranchUpdate::DeleteFlowStep(id)), BranchUpdate::UndoDeleteFlowStep(id)).deleted_flow_steps
            == m.deleted_flow_steps.remove(id),
        spec_update(spec_update(m, BranchUpdate::DeleteIo(id)), BranchUpdate::UndoDeleteIo(id)).deleted_ios
            == m.deleted_ios.remove(id),
{
    assert(m.deleted_flows.insert(id).remove(id) =~= m.deleted_flows.remove(id));
    assert(m.deleted_flow_steps.insert(id).remove(id) =~= m.deleted_flow_steps.remove(id));
    assert(m.deleted_ios.insert(id).remove(id) =~= m.deleted_ios.remove(id));
}

/// Undoing the deletion of nodes takes exactly those nodes out of the deleted set.
pub proof fn lemma_undo_delete_nodes_reverts(m: BranchModel, ids: Vec<u128>)
    ensures
        spec_update(spec_update(m, BranchUpdate::DeleteNodes(ids)), BranchUpdate::UndoDeleteNodes(ids)).deleted_nodes
            == m.deleted_nodes - ids@.to_set(),
{
    assert((m.deleted_nodes + ids@.to_set()) - ids@.to_set() =~= m.deleted_nodes - ids@.to_set());
}

/// Recording flow step nodes as created takes the same flow steps out of the
/// deleted ones, and the other way round.
pub proof fn lemma_flow_step_nodes_exclusive(m: BranchModel, nodes: HashMap<u128, HashSet<u128>>, fs: u128)
    requires
        nodes@.contains_key(fs),
    ensures
        spec_update(m, BranchUpdate::CreateFlowStepNodes(nodes)).created_flow_step_nodes[fs] == nodes@[fs],
        !spec_update(m, BranchUpdate::CreateFlowStepNodes(nodes)).deleted_flow_step_nodes.contains_key(fs),
        spec_update(m, BranchUpdate::DeleteFlowStepNodes(nodes)).deleted_flow_step_nodes[fs] == nodes@[fs],
        !spec_update(m, BranchUpdate::DeleteFlowStepNodes(nodes)).created_flow_step_nodes.contains_key(fs),
{
}

/// A reorder leaves exactly one record for its node, the new one, last.
pub proof fn lemma_reorder_keeps_latest(m: BranchModel, data: BranchReorderData)
    ensures
        ({
            let r = spec_update(m, BranchUpdate::ReorderNode(data)).reordered_nodes;
            &&& r.last() == data
            &&& forall|i: int| 0 <= i < r.len() - 1 ==> #[trigger] r[i].id != data.id
        }),
{
    lemma_reorders_without_drops(m.reordered_nodes, data.id);
}


/// A change that names one object is recorded in the set kept for that kind
/// of change, and in no other: a node's title edit is recorded among the
/// nodes whose title was edited (so the merge carries the title), not among
/// the edited nodes; a description edit among the edited descriptions; a
/// creation among the created objects; a kept flow step among the kept
/// ones. Every other record of the branch stays as it was.
pub proof fn lemma_edits_recorded_in_their_own_set(m: BranchModel, id: u128)
    ensures
        spec_update(m, BranchUpdate::EditNodeTitle(id)).edited_title_nodes.contains(id),
        spec_update(m, BranchUpdate::EditNodeTitle(id)) == (BranchModel { edited_title_nodes: m.edited_title_nodes.insert(id), ..m }),
        spec_update(m, BranchUpdate::EditNodeDescription(id)).edited_description_nodes.contains(id),
        spec_update(m, BranchUpdate::EditNodeDescription(id)) == (BranchModel { edited_description_nodes: m.edited_description_nodes.insert(id), ..m }),
        spec_update(m, BranchUpdate::EditNode(id)).edited_nodes.contains(id),
        spec_update(m, BranchUpdate::EditNode(id)) == (BranchModel { edited_nodes: m.edited_nodes.insert(id), ..m }),
        spec_update(m, BranchUpdate::EditFlowTitle(id)).edited_title_flows.contains(id),
        spec_update(m, BranchUpdate::EditFlowTitle(id)) == (BranchModel { edited_title_flows: m.edited_title_flows.insert(id), ..m }),
        spec_update(m, BranchUpdate::EditFlowDescription(id)).edited_description_flows.contains(id),
        spec_update(m, BranchUpdate::EditFlowDescription(id)) == (BranchModel { edited_description_flows: m.edited_description_flows.insert(id), ..m }),
        spec_update(m, BranchUpdate::EditFlowStepDescription(id)).edited_description_flow_steps.contains(id),
        spec_update(m, BranchUpdate::EditFlowStepDescription(id)) == (BranchModel { edited_description_flow_steps: m.edited_description_flow_steps.insert(id), ..m }),
        spec_update(m, BranchUpdate::EditIoTitle(id)).edited_title_ios.contains(id),
        spec_update(m, BranchUpdate::EditIoTitle(id)) == (BranchModel { edited_title_ios: m.edited_title_ios.insert(id), ..m }),
        spec_update(m, BranchUpdate::EditIoDescription(id)).edited_description_ios.contains(id),
        spec_update(m, BranchUpdate::EditIoDescription(id)) == (BranchModel { edited_description_ios: m.edited_description_ios.insert(id), ..m }),
        spec_update(m, BranchUpdate::CreateFlow(id)).created_flows.contains(id),
        spec_update(m, BranchUpdate::CreateFlow(id)) == (BranchModel { created_flows: m.created_flows.insert(id), ..m }),
        spec_update(m, BranchUpdate::CreateFlowStep(id)).created_flow_steps.contains(id),
        spec_update(m, BranchUpdate::CreateFlowStep(id)) == (BranchModel { created_flow_steps: m.created_flow_steps.insert(id), ..m }),
        spec_update(m, BranchUpdate::CreateIo(id)).created_ios.contains(id),
        spec_update(m, BranchUpdate::CreateIo(id)) == (BranchModel { created_ios: m.created_ios.insert(id), ..m }),
        spec_update(m, BranchUpdate::KeepFlowStep(id)).kept_flow_steps.contains(id),
        spec_update(m, BranchUpdate::KeepFlowStep(id)) == (BranchModel { kept_flow_steps: m.kept_flow_steps.insert(id), ..m }),
{
}

/// Deleting a flow, flow step or io records it as deleted and takes it out
/// of the created and restored ones; restoring one records it as restored
/// and takes it out of the deleted ones; undoing a deletion only takes it
/// out of the deleted ones; restoring a node likewise. Nothing else changes.
pub proof fn lemma_deletions_and_restorations(m: BranchModel, id: u128)
    ensures
        spec_update(m, BranchUpdate::DeleteFlow(id)) == (BranchModel { deleted_flows: m.deleted_flows.insert(id), created_flows: m.created_flows.remove(id), restored_flows: m.restored_flows.remove(id), ..m }),
        spec_update(m, BranchUpdate::RestoreFlow(id)) == (BranchModel { restored_flows: m.restored_flows.insert(id), deleted_flows: m.deleted_flows.remove(id), ..m }),
        spec_update(m, BranchUpdate::UndoDeleteFlow(id)) == (BranchModel { deleted_flows: m.deleted_flows.remove(id), ..m }),
        spec_update(m, BranchUpdate::DeleteFlowStep(id)) == (BranchModel { deleted_flow_steps: m.deleted_flow_steps.insert(id), created_flow_steps: m.created_flow_steps.remove(id), restored_flow_steps: m.restored_flow_steps.remove(id), ..m }),
        spec_update(m, BranchUpdate::RestoreFlowStep(id)) == (BranchModel { restored_flow_steps: m.restored_flow_steps.insert(id), deleted_flow_steps: m.deleted_flow_steps.remove(id), ..m }),
        spec_update(m, BranchUpdate::UndoDeleteFlowStep(id)) == (BranchModel { deleted_flow_steps: m.deleted_flow_steps.remove(id), ..m }),
        spec_update(m, BranchUpdate::DeleteIo(id)) == (BranchModel { deleted_ios: m.deleted_ios.insert(id), created_ios: m.created_ios.remove(id), restored_ios: m.restored_ios.remove(id), ..m }),
        spec_update(m, BranchUpdate::RestoreIo(id)) == (BranchModel { restored_ios: m.restored_ios.insert(id), deleted_ios: m.deleted_ios.remove(id), ..m }),
        spec_update(m, BranchUpdate::UndoDeleteIo(id)) == (BranchModel { deleted_ios: m.deleted_ios.remove(id), ..m }),
        spec_update(m, BranchUpdate::RestoreNode(id)) == (BranchModel { restored_nodes: m.restored_nodes.insert(id), deleted_nodes: m.deleted_nodes.remove(id), ..m }),
{
}

} // verus!
