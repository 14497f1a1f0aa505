//! Merging the initial inputs of workflows that a branch changed: the inputs
//! it added are appended and those it removed are taken out; undoing takes
//! the added ones out and appends the removed ones again.
use std::collections::{HashMap, HashSet};
use crate::branch::Branch;
use crate::flow_step::{copy_list, copy_lists, opt_lists};
use crate::ids::{opt_map, map_keys};
use crate::merge_lists::{seq_without, list_without, opt_seq, list_map_view, lemma_seq_without_to_set};
use vstd::prelude::*;

verus! {

broadcast use vstd::std_specs::hash::group_hash_axioms;

/// What the merge of workflows works on: per node, the initial inputs the
/// branch added and removed, and every node concerned, added ones first.
pub struct MergeWorkflows {
    pub created_workflow_initial_inputs: HashMap<u128, Vec<u128>>,
    pub deleted_workflow_initial_inputs: HashMap<u128, Vec<u128>>,
    pub combined: Vec<u128>,
    pub branch_id: u128,
}

/// A list with another appended; an absent list becomes the other.
pub open spec fn appended(a: Option<Seq<u128>>, b: Seq<u128>) -> Option<Seq<u128>> {
    match a {
        Some(a) => Some(a + b),
        None => Some(b),
    }
}

/// A list without the ids of a set; an absent list stays absent.
pub open spec fn opt_without(a: Option<Seq<u128>>, ids: Set<u128>) -> Option<Seq<u128>> {
    match a {
        Some(a) => Some(seq_without(a, ids)),
        None => None,
    }
}

/// A node's initial inputs after the merge: the added ones appended, then
/// the removed ones taken out.
pub open spec fn spec_merged_inputs(
    current: Option<Seq<u128>>,
    created: Map<u128, Seq<u128>>,
    deleted: Map<u128, Seq<u128>>,
    node: u128,
) -> Option<Seq<u128>> {
    let with_created = if created.contains_key(node) {
        appended(current, created[node])
    } else {
        current
    };
    if deleted.contains_key(node) {
        opt_without(with_created, deleted[node].to_set())
    } else {
        with_created
    }
}

/// A node's initial inputs after undoing the merge: the added ones taken
/// out, then the removed ones appended.
pub open spec fn spec_unmerged_inputs(
    current: Option<Seq<u128>>,
    created: Map<u128, Seq<u128>>,
    deleted: Map<u128, Seq<u128>>,
    node: u128,
) -> Option<Seq<u128>> {
    let without_created = if created.contains_key(node) {
        opt_without(current, created[node].to_set())
    } else {
        current
    };
    if deleted.contains_key(node) {
        appended(without_created, deleted[node])
    } else {
        without_created
    }
}

/// `a` with `b` appended.
fn append_list(a: Option<Vec<u128>>, b: &Vec<u128>) -> (r: Option<Vec<u128>>)
    ensures
        opt_seq(r) == appended(opt_seq(a), b@),
{
    let mut v = match a {
        Some(v) => v,
        None => Vec::new(),
    };
    let ghost start = v@;
    let mut i: usize = 0;
    while i < b.len()
        invariant
            i <= b.len(),
            v@ == start + b@.take(i as int),
        decreases b.len() - i,
    {
        v.push(b[i]);
        proof {
            assert(b@.take(i as int + 1) =~= b@.take(i as int).push(b@[i as int]));
            assert(v@ =~= start + b@.take(i as int + 1));
        }
        i = i + 1;
    }
    proof {
        assert(b@.take(b@.len() as int) =~= b@);
        assert(Seq::<u128>::empty() + b@ =~= b@);
    }
    Some(v)
}

/// `a` without the ids of `b`.
fn remove_list(a: Option<Vec<u128>>, b: &Vec<u128>) -> (r: Option<Vec<u128>>)
    ensures
        opt_seq(r) == opt_without(opt_seq(a), b@.to_set()),
{
    match a {
        Some(v) => Some(list_without(&v, b)),
        None => None,
    }
}

impl MergeWorkflows {
    /// The workflow changes of a branch: what it added and removed, and the
    /// nodes concerned.
    pub fn new(branch: &Branch) -> (m: MergeWorkflows)
        ensures
            list_map_view(m.created_workflow_initial_inputs@) == opt_lists(branch.created_workflow_initial_inputs),
            list_map_view(m.deleted_workflow_initial_inputs@) == opt_lists(branch.deleted_workflow_initial_inputs),
            m.combined@.to_set() == opt_lists(branch.created_workflow_initial_inputs).dom() + opt_lists(
                branch.deleted_workflow_initial_inputs,
            ).dom(),
            m.branch_id == branch.id,
    {
        let created = match &branch.created_workflow_initial_inputs {
            Some(c) => copy_lists(c),
            None => {
                let e: HashMap<u128, Vec<u128>> = HashMap::new();
                proof {
                    assert(list_map_view(e@) =~= opt_lists(branch.created_workflow_initial_inputs));
                }
                e
            },
        };
        let deleted = match &branch.deleted_workflow_initial_inputs {
            Some(d) => copy_lists(d),
            None => {
                let e: HashMap<u128, Vec<u128>> = HashMap::new();
                proof {
                    assert(list_map_view(e@) =~= opt_lists(branch.deleted_workflow_initial_inputs));
                }
                e
            },
        };
        let mut combined = map_keys(&created);
        let ghost first = combined@;
        let mut more = map_keys(&deleted);
        let ghost second = more@;
        combined.append(&mut more);
        proof {
            vstd::seq_lib::seq_to_set_distributes_over_add(first, second);
            assert(list_map_view(created@).dom() == created@.dom());
            assert(list_map_view(deleted@).dom() == deleted@.dom());
        }
        MergeWorkflows {
            created_workflow_initial_inputs: created,
            deleted_workflow_initial_inputs: deleted,
            combined,
            branch_id: branch.id,
        }
    }

    /// A node's workflow initial inputs after the merge (see `spec_merged_inputs`).
    pub fn update_initial_inputs(&self, node_id: u128, current: Option<Vec<u128>>) -> (r: Option<Vec<u128>>)
        ensures
            opt_seq(r) == spec_merged_inputs(
                opt_seq(current),
                list_map_view(self.created_workflow_initial_inputs@),
                list_map_view(self.deleted_workflow_initial_inputs@),
                node_id,
            ),
    {
        let mut ids = current;
        if let Some(created) = self.created_workflow_initial_inputs.get(&node_id) {
            ids = append_list(ids, created);
        }
        if let Some(deleted) = self.deleted_workflow_initial_inputs.get(&node_id) {
            ids = remove_list(ids, deleted);
        }
        ids
    }

    /// A node's workflow initial inputs after undoing the merge (see
    /// `spec_unmerged_inputs`).
    pub fn undo_update_initial_inputs(&self, node_id: u128, current: Option<Vec<u128>>) -> (r: Option<Vec<u128>>)
        ensures
            opt_seq(r) == spec_unmerged_inputs(
                opt_seq(current),
                list_map_view(self.created_workflow_initial_inputs@),
                list_map_view(self.deleted_workflow_initial_inputs@),
                node_id,
            ),
    {
        let mut ids = current;
        if let Some(created) = self.created_workflow_initial_inputs.get(&node_id) {
            ids = remove_list(ids, created);
        }
        if let Some(deleted) = self.deleted_workflow_initial_inputs.get(&node_id) {
            ids = append_list(ids, deleted);
        }
        ids
    }
}

/// The initial inputs as a set.
pub open spec fn opt_ids(a: Option<Seq<u128>>) -> Option<Set<u128>> {
    match a {
        Some(a) => Some(a.to_set()),
        None => None,
    }
}

/// Undoing a workflow merge gives a node its initial inputs back, as a set,
/// when none of the inputs the branch added were there before and all those
/// it removed were: the removed ones come back last.
pub proof fn lemma_undo_update_initial_inputs(
    current: Seq<u128>,
    created: Map<u128, Seq<u128>>,
    deleted: Map<u128, Seq<u128>>,
    node: u128,
)
    requires
        created.contains_key(node) ==> current.to_set().disjoint(created[node].to_set()),
        deleted.contains_key(node) ==> deleted[node].to_set().subset_of(current.to_set()),
    ensures
        opt_ids(spec_unmerged_inputs(spec_merged_inputs(Some(current), created, deleted, node), created, deleted, node))
            == Some(current.to_set()),
{
    let c = if created.contains_key(node) {
        created[node]
    } else {
        Seq::<u128>::empty()
    };
    let d = if deleted.contains_key(node) {
        deleted[node]
    } else {
        Seq::<u128>::empty()
    };
    let merged = seq_without(current + c, d.to_set());
    let undone = seq_without(merged, c.to_set()) + d;
    vstd::seq_lib::seq_to_set_distributes_over_add(current, c);
    lemma_seq_without_to_set(current + c, d.to_set());
    lemma_seq_without_to_set(merged, c.to_set());
    vstd::seq_lib::seq_to_set_distributes_over_add(seq_without(merged, c.to_set()), d);
    lemma_seq_without_to_set(current, d.to_set());
    lemma_seq_without_to_set(current, c.to_set());
    assert(Seq::<u128>::empty().to_set() =~= Set::<u128>::empty());
    assert(current + Seq::<u128>::empty() =~= current);
    crate::merge_lists::lemma_seq_without_disjoint(current, Set::<u128>::empty());
    let mid_set = current.to_set() + c.to_set() - d.to_set();
    assert(merged.to_set() == mid_set);
    assert(seq_without(merged, c.to_set()).to_set() =~= mid_set - c.to_set());
    assert((mid_set - c.to_set()) + d.to_set() =~= current.to_set());
    if created.contains_key(node) && deleted.contains_key(node) {
        assert(undone.to_set() =~= current.to_set());
    } else if created.contains_key(node) {
        crate::merge_lists::lemma_seq_without_disjoint(current + c, Set::<u128>::empty());
        assert(seq_without(seq_without(current + c, Set::<u128>::empty()), c.to_set()).to_set() =~= current.to_set());
    } else if deleted.contains_key(node) {
        crate::merge_lists::lemma_seq_without_disjoint(seq_without(current, d.to_set()), Set::<u128>::empty());
        assert((seq_without(current, d.to_set()) + d).to_set() =~= current.to_set()) by {
            vstd::seq_lib::seq_to_set_distributes_over_add(seq_without(current, d.to_set()), d);
        }
    }
}


/// The ids of an optional list; none when it is absent.
pub open spec fn ids_of(o: Option<Seq<u128>>) -> Set<u128> {
    match o {
        Some(s) => s.to_set(),
        None => Set::empty(),
    }
}

/// After a merge a node's initial inputs hold exactly the inputs it had and
/// those the branch added, less those the branch removed; they exist
/// whenever the node had some or the branch added some (so inputs added to
/// a node without initial inputs become its initial inputs), and are absent
/// otherwise. When the branch removed none, the inputs it had come first, in
/// their order.
pub proof fn lemma_merged_inputs_hold_added(
    current: Option<Seq<u128>>,
    created: Map<u128, Seq<u128>>,
    deleted: Map<u128, Seq<u128>>,
    node: u128,
)
    ensures
        ({
            let r = spec_merged_inputs(current, created, deleted, node);
            let added = if created.contains_key(node) { created[node].to_set() } else { Set::<u128>::empty() };
            let removed = if deleted.contains_key(node) { deleted[node].to_set() } else { Set::<u128>::empty() };
            &&& (r is Some <==> (current is Some || created.contains_key(node)))
            &&& ids_of(r) == (ids_of(current) + added) - removed
            &&& (current is Some && !deleted.contains_key(node)) ==> (r.unwrap().len() >= current.unwrap().len()
                && r.unwrap().subrange(0, current.unwrap().len() as int) == current.unwrap())
        }),
{
    let with_created = if created.contains_key(node) {
        appended(current, created[node])
    } else {
        current
    };
    if created.contains_key(node) {
        match current {
            Some(c) => {
                vstd::seq_lib::seq_to_set_distributes_over_add(c, created[node]);
                assert((c + created[node]).subrange(0, c.len() as int) =~= c);
            },
            None => {},
        }
    }
    if deleted.contains_key(node) {
        match with_created {
            Some(w) => {
                lemma_seq_without_to_set(w, deleted[node].to_set());
            },
            None => {},
        }
    }
    if !deleted.contains_key(node) {
        assert(Set::<u128>::empty() + Set::<u128>::empty() =~= Set::<u128>::empty());
    }
    assert(ids_of(spec_merged_inputs(current, created, deleted, node)) =~= (ids_of(current) + (if created.contains_key(node) {
        created[node].to_set()
    } else {
        Set::<u128>::empty()
    })) - (if deleted.contains_key(node) {
        deleted[node].to_set()
    } else {
        Set::<u128>::empty()
    }));
}

} // verus!
