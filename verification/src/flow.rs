//! Flows of a node's workflow, and how a branch sees them: its own flows
//! together with the original's flows it did not change.
use std::collections::{HashMap, HashSet};
use crate::branch::Branch;
use crate::branch_update::BranchUpdate;
use crate::merge_nodes::{TitleRecord, record_title_changes, title_changes, fold_title_changes, title_changed};
use crate::branch_update::{branch_model, BranchModel};
use vstd::prelude::*;

verus! {

broadcast use vstd::std_specs::hash::group_hash_axioms;

/// A flow of a node. `root_id` is the id of the original branch; a flow with
/// another `branch_id` belongs to a branch. The flow's vertical position,
/// a floating-point value, is kept by the code that orders flows for display.
pub struct Flow {
    pub node_id: u128,
    pub branch_id: u128,
    pub root_id: u128,
    pub start_index: i32,
    pub id: u128,
    pub title: String,
}

/// The flow as loaded to update its title.
pub type UpdateTitleFlow = Flow;

/// A flow moved to another branch.
pub open spec fn in_branch(f: Flow, branch_id: u128) -> Flow {
    Flow { branch_id: branch_id, ..f }
}

/// The flows a branch sees: its own, then the original's that it has no
/// version of, moved to the branch.
pub open spec fn spec_branched(branch_id: u128, own: Seq<Flow>, original: Seq<Flow>) -> Seq<Flow> {
    own + original.filter(|f: Flow| !own.map_values(|g: Flow| g.id).contains(f.id)).map_values(
        |f: Flow| in_branch(f, branch_id),
    )
}

impl Flow {
    /// Whether the flow belongs to a branch rather than the original.
    pub fn is_branch(&self) -> (b: bool)
        ensures
            b == (self.branch_id != self.root_id),
    {
        self.branch_id != self.root_id
    }

    /// The flows a branch sees (see `spec_branched`), before they are ordered
    /// by their vertical position.
    pub fn branched(branch_id: u128, own: Vec<Flow>, original: Vec<Flow>) -> (r: Vec<Flow>)
        ensures
            r@ == spec_branched(branch_id, own@, original@),
    {
        let ghost own_ids = own@.map_values(|g: Flow| g.id);
        let ghost keep = |f: Flow| !own_ids.contains(f.id);
        let mut ids: HashSet<u128> = HashSet::new();
        let mut i: usize = 0;
        while i < own.len()
            invariant
                i <= own.len(),
                own_ids == own@.map_values(|g: Flow| g.id),
                ids@ == own_ids.take(i as int).to_set(),
            decreases own.len() - i,
        {
            proof {
                own_ids.take(i as int).lemma_push_to_set_commute(own_ids[i as int]);
                assert(own_ids.take(i as int + 1) =~= own_ids.take(i as int).push(own_ids[i as int]));
            }
            ids.insert(own[i].id);
            i = i + 1;
        }
        proof {
            assert(own_ids.take(own_ids.len() as int) =~= own_ids);
        }
        let mut r = own;
        let ghost start = r@;
        let mut rest = original;
        let ghost all = rest@;
        let n = rest.len();
        let mut taken: usize = 0;
        while rest.len() > 0
            invariant
                all.len() == n,
                taken + rest@.len() == all.len(),
                rest@ == all.subrange(taken as int, all.len() as int),
                ids@ == own_ids.to_set(),
                keep == (|f: Flow| !own_ids.contains(f.id)),
                r@ == start + all.take(taken as int).filter(keep).map_values(|f: Flow| in_branch(f, branch_id)),
            decreases rest@.len(),
        {
            let mut f = rest.remove(0);
            proof {
                assert(f == all[taken as int]);
                assert(all.take(taken as int + 1).drop_last() =~= all.take(taken as int));
                assert(all.take(taken as int + 1).last() == all[taken as int]);
                reveal(Seq::filter);
                assert(own_ids.contains(f.id) <==> own_ids.to_set().contains(f.id));
            }
            if !ids.contains(&f.id) {
                f.branch_id = branch_id;
                r.push(f);
            }
            proof {
                assert(r@ =~= start + all.take(taken as int + 1).filter(keep).map_values(
                    |f: Flow| in_branch(f, branch_id),
                ));
                assert(rest@ =~= all.subrange(taken as int + 1, all.len() as int));
            }
            taken = taken + 1;
        }
        proof {
            assert(all.take(all.len() as int) =~= all);
        }
        r
    }

    /// The changes a branch records when a flow is created on it: the node's
    /// workflow edited and the flow created; none for a flow of the original.
    pub fn update_branch_with_creation(&self) -> (r: Vec<BranchUpdate>)
        ensures
            self.branch_id != self.root_id ==> r@ == seq![
                BranchUpdate::EditNodeWorkflow(self.node_id),
                BranchUpdate::CreateFlow(self.id),
            ],
            self.branch_id == self.root_id ==> r@.len() == 0,
    {
        let mut r: Vec<BranchUpdate> = Vec::new();
        if self.is_branch() {
            r.push(BranchUpdate::EditNodeWorkflow(self.node_id));
            r.push(BranchUpdate::CreateFlow(self.id));
            proof {
                assert(r@ =~= seq![BranchUpdate::EditNodeWorkflow(self.node_id), BranchUpdate::CreateFlow(self.id)]);
            }
        }
        r
    }

    /// The changes a branch records when a flow is deleted on it: the node's
    /// workflow edited and the flow deleted; none for a flow of the original.
    pub fn update_branch_with_deletion(&self) -> (r: Vec<BranchUpdate>)
        ensures
            self.branch_id != self.root_id ==> r@ == seq![
                BranchUpdate::EditNodeWorkflow(self.node_id),
                BranchUpdate::DeleteFlow(self.id),
            ],
            self.branch_id == self.root_id ==> r@.len() == 0,
    {
        let mut r: Vec<BranchUpdate> = Vec::new();
        if self.is_branch() {
            r.push(BranchUpdate::EditNodeWorkflow(self.node_id));
            r.push(BranchUpdate::DeleteFlow(self.id));
            proof {
                assert(r@ =~= seq![BranchUpdate::EditNodeWorkflow(self.node_id), BranchUpdate::DeleteFlow(self.id)]);
            }
        }
        r
    }

    /// The changes a branch records when a flow's title is edited on it: the
    /// node edited and the flow's title edited; none for a flow of the original.
    pub fn update_branch(&self) -> (r: Vec<BranchUpdate>)
        ensures
            self.branch_id != self.root_id ==> r@ == seq![
                BranchUpdate::EditNode(self.node_id),
                BranchUpdate::EditFlowTitle(self.id),
            ],
            self.branch_id == self.root_id ==> r@.len() == 0,
    {
        let mut r: Vec<BranchUpdate> = Vec::new();
        if self.is_branch() {
            r.push(BranchUpdate::EditNode(self.node_id));
            r.push(BranchUpdate::EditFlowTitle(self.id));
            proof {
                assert(r@ =~= seq![BranchUpdate::EditNode(self.node_id), BranchUpdate::EditFlowTitle(self.id)]);
            }
        }
        r
    }
}

/// What the merge of a branch's flows works on for titles: the flows whose
/// title the branch edited, and the original's versions of them.
pub struct MergeFlows {
    pub edited_title_flows: Option<Vec<TitleRecord>>,
    pub original_title_flows: Option<HashMap<u128, TitleRecord>>,
}

impl MergeFlows {
    /// Records the title changes of the merged flows (see `record_title_changes`).
    pub fn update_title(&self, branch: &mut Branch) -> (changed: Vec<u128>)
        ensures
            title_changes(final(branch).title_change_by_object) == match (
                self.edited_title_flows,
                self.original_title_flows,
            ) {
                (Some(e), Some(o)) => fold_title_changes(title_changes(old(branch).title_change_by_object), e@, o@),
                _ => title_changes(old(branch).title_change_by_object),
            },
            (BranchModel { title_change_by_object: final(branch).title_change_by_object, ..branch_model(old(branch)) })
                == branch_model(final(branch)),
            changed@ == match (self.edited_title_flows, self.original_title_flows) {
                (Some(e), Some(o)) => e@.filter(|t: TitleRecord| title_changed(t, o@)).map_values(|t: TitleRecord| t.id),
                _ => Seq::<u128>::empty(),
            },
    {
        record_title_changes(&self.edited_title_flows, &self.original_title_flows, branch)
    }
}

/// What the merge of a branch's ios works on for titles: the ios whose
/// title the branch edited, and the original's versions of them.
pub struct MergeIos {
    pub edited_title_ios: Option<Vec<TitleRecord>>,
    pub original_title_ios: Option<HashMap<u128, TitleRecord>>,
}

impl MergeIos {
    /// Records the title changes of the merged ios (see `record_title_changes`).
    pub fn update_title(&self, branch: &mut Branch) -> (changed: Vec<u128>)
        ensures
            title_changes(final(branch).title_change_by_object) == match (self.edited_title_ios, self.original_title_ios) {
                (Some(e), Some(o)) => fold_title_changes(title_changes(old(branch).title_change_by_object), e@, o@),
                _ => title_changes(old(branch).title_change_by_object),
            },
            (BranchModel { title_change_by_object: final(branch).title_change_by_object, ..branch_model(old(branch)) })
                == branch_model(final(branch)),
            changed@ == match (self.edited_title_ios, self.original_title_ios) {
                (Some(e), Some(o)) => e@.filter(|t: TitleRecord| title_changed(t, o@)).map_values(|t: TitleRecord| t.id),
                _ => Seq::<u128>::empty(),
            },
    {
        record_title_changes(&self.edited_title_ios, &self.original_title_ios, branch)
    }
}

} // verus!
