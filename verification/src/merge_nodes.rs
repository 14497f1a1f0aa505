//! Merging a branch's nodes into the original: which reorders are replayed,
//! which deletions are made, and which title changes are recorded.
use std::collections::{HashMap, HashSet};
use crate::branch::Branch;
use crate::branch_update::{branch_model, BranchModel};
use crate::errors::NodecosmosError;
use crate::ids::{opt_set, opt_map, opt_contains, vec_contains, set_to_vec};
use crate::text::{text_eq, text_from};
use crate::udts::{BranchReorderData, TextChange};
use vstd::prelude::*;

verus! {

broadcast use vstd::std_specs::hash::group_hash_axioms;

/// What the merge reads of a node it creates, restores or deletes: its id
/// and its ancestors, nearest last.
pub struct NodeRef {
    pub id: u128,
    pub ancestor_ids: Option<Vec<u128>>,
}

/// A record's id and title, as the merge of titles reads it.
pub struct TitleRecord {
    pub id: u128,
    pub title: Option<String>,
}

/// Where a node is to move: the parameters of a reorder.
#[derive(Clone, Copy, Debug, PartialEq, Eq, Structural)]
pub struct ReorderParams {
    pub root_id: u128,
    pub branch_id: u128,
    pub id: u128,
    pub new_parent_id: u128,
    pub new_upper_sibling_id: Option<u128>,
    pub new_lower_sibling_id: Option<u128>,
    /// The bit pattern of the floating-point order index to move to, when given.
    pub new_order_index_bits: Option<u64>,
}

/// The reorders a merge replays: those of the branch for nodes it neither
/// deleted nor created, in their order.
pub open spec fn spec_reordered(b: &Branch) -> Option<Seq<BranchReorderData>> {
    match b.reordered_nodes {
        Some(v) => Some(
            v@.filter(
                |d: BranchReorderData| !opt_set(b.deleted_nodes).contains(d.id) && !opt_set(b.created_nodes).contains(d.id),
            ),
        ),
        None => None,
    }
}

/// The view of an optional list of reorders.
pub open spec fn opt_reorders(o: Option<Vec<BranchReorderData>>) -> Option<Seq<BranchReorderData>> {
    match o {
        Some(v) => Some(v@),
        None => None,
    }
}

/// Whether a node has an ancestor among `ids`.
pub open spec fn has_ancestor_in(n: NodeRef, ids: Set<u128>) -> bool {
    match n.ancestor_ids {
        Some(a) => exists|i: int| 0 <= i < a@.len() && ids.contains(#[trigger] a@[i]),
        None => false,
    }
}

/// The nodes a removal deletes, in order: each node unless an ancestor of it
/// was deleted before it, since deleting a node takes its descendants along.
pub open spec fn spec_removed(nodes: Seq<NodeRef>) -> Seq<u128>
    decreases nodes.len(),
{
    if nodes.len() == 0 {
        Seq::empty()
    } else {
        let r = spec_removed(nodes.drop_last());
        if has_ancestor_in(nodes.last(), r.to_set()) {
            r
        } else {
            r.push(nodes.last().id)
        }
    }
}

/// The optional text of a title.
pub open spec fn title_text(t: Option<String>) -> Option<Seq<char>> {
    match t {
        Some(s) => Some(s@),
        None => None,
    }
}

/// A recorded text change as texts.
pub open spec fn change_texts(c: TextChange) -> (Option<Seq<char>>, Option<Seq<char>>) {
    (title_text(c.old), title_text(c.new))
}

/// Whether an edited title differs from the original's, where there is one.
pub open spec fn title_changed(e: TitleRecord, originals: Map<u128, TitleRecord>) -> bool {
    originals.contains_key(e.id) && title_text(originals[e.id].title) != title_text(e.title)
}

/// The title changes recorded for a list of edited records, one after another.
pub open spec fn fold_title_changes(
    start: Map<u128, (Option<Seq<char>>, Option<Seq<char>>)>,
    edited: Seq<TitleRecord>,
    originals: Map<u128, TitleRecord>,
) -> Map<u128, (Option<Seq<char>>, Option<Seq<char>>)>
    decreases edited.len(),
{
    if edited.len() == 0 {
        start
    } else {
        let r = fold_title_changes(start, edited.drop_last(), originals);
        let e = edited.last();
        if title_changed(e, originals) {
            r.insert(e.id, (title_text(originals[e.id].title), title_text(e.title)))
        } else {
            r
        }
    }
}

/// The recorded title changes of a branch, as texts.
pub open spec fn title_changes(o: Option<HashMap<u128, TextChange>>) -> Map<u128, (Option<Seq<char>>, Option<Seq<char>>)> {
    opt_map(o).map_values(|c: TextChange| change_texts(c))
}

/// A copy of an optional text.
fn copy_title(t: &Option<String>) -> (r: Option<String>)
    ensures
        title_text(r) == title_text(*t),
{
    match t {
        Some(s) => Some(text_from(s.as_str())),
        None => None,
    }
}

/// Whether two optional texts are the same.
fn same_title(a: &Option<String>, b: &Option<String>) -> (r: bool)
    ensures
        r == (title_text(*a) == title_text(*b)),
{
    match (a, b) {
        (Some(x), Some(y)) => text_eq(x.as_str(), y.as_str()),
        (None, None) => true,
        _ => false,
    }
}

/// Records on the branch, for each edited record whose title differs from
/// the original's, the change from the original title to the edited one.
/// Gives back the ids of the records whose title is to be written.
pub fn record_title_changes(
    edited: &Option<Vec<TitleRecord>>,
    originals: &Option<HashMap<u128, TitleRecord>>,
    branch: &mut Branch,
) -> (changed: Vec<u128>)
    ensures
        title_changes(final(branch).title_change_by_object) == match (edited, originals) {
            (Some(e), Some(o)) => fold_title_changes(title_changes(old(branch).title_change_by_object), e@, o@),
            _ => title_changes(old(branch).title_change_by_object),
        },
        (final(branch).title_change_by_object is None) ==> (old(branch).title_change_by_object is None),
        (BranchModel { title_change_by_object: final(branch).title_change_by_object, ..branch_model(old(branch)) })
            == branch_model(final(branch)),
        changed@ == match (edited, originals) {
            (Some(e), Some(o)) => e@.filter(|t: TitleRecord| title_changed(t, o@)).map_values(|t: TitleRecord| t.id),
            _ => Seq::<u128>::empty(),
        },
{
    let mut changed: Vec<u128> = Vec::new();
    let (e, o) = match (edited, originals) {
        (Some(e), Some(o)) => (e, o),
        _ => {
            return changed;
        },
    };
    let ghost om = o@;
    let ghost pred = |t: TitleRecord| title_changed(t, om);
    let ghost start = title_changes(branch.title_change_by_object);
    let ghost pre = branch_model(branch);
    let mut i: usize = 0;
    while i < e.len()
        invariant
            i <= e.len(),
            om == o@,
            pred == (|t: TitleRecord| title_changed(t, om)),
            title_changes(branch.title_change_by_object) == fold_title_changes(start, e@.take(i as int), om),
            (branch.title_change_by_object is None) ==> (pre.title_change_by_object is None),
            (BranchModel { title_change_by_object: branch.title_change_by_object, ..pre }) == branch_model(branch),
            changed@ == e@.take(i as int).filter(pred).map_values(|t: TitleRecord| t.id),
        decreases e.len() - i,
    {
        let rec = &e[i];
        proof {
            assert(e@.take(i as int + 1).drop_last() =~= e@.take(i as int));
            assert(e@.take(i as int + 1).last() == e@[i as int]);
            assert(e@.take(i as int + 1).filter(pred) == if pred(e@[i as int]) {
                e@.take(i as int).filter(pred).push(e@[i as int])
            } else {
                e@.take(i as int).filter(pred)
            }) by {
                reveal(Seq::filter);
            }
        }
        if let Some(orig) = o.get(&rec.id) {
            if !same_title(&orig.title, &rec.title) {
                let mut change = TextChange::new();
                change.assign_old(copy_title(&orig.title));
                change.assign_new(copy_title(&rec.title));
                let ghost before = branch.title_change_by_object;
                let mut m = match branch.title_change_by_object.take() {
                    Some(m) => m,
                    None => HashMap::new(),
                };
                m.insert(rec.id, change);
                branch.title_change_by_object = Some(m);
                proof {
                    assert(title_changes(branch.title_change_by_object) =~= title_changes(before).insert(
                        rec.id,
                        (title_text(om[rec.id].title), title_text(rec.title)),
                    ));
                    assert(branch_model(branch) =~= (BranchModel { title_change_by_object: branch.title_change_by_object, ..pre }));
                }
                changed.push(rec.id);
            }
        }
        proof {
            assert(changed@ =~= e@.take(i as int + 1).filter(pred).map_values(|t: TitleRecord| t.id));
        }
        i = i + 1;
    }
    proof {
        assert(e@.take(e@.len() as int) =~= e@);
    }
    changed
}

/// What the merge of a branch's nodes works on: the nodes it restores,
/// creates and deletes, the reorders it replays, and the titles it changes.
pub struct MergeNodes {
    pub restored_nodes: Option<Vec<NodeRef>>,
    pub created_nodes: Option<Vec<NodeRef>>,
    pub deleted_nodes: Option<Vec<NodeRef>>,
    pub reordered_nodes_data: Option<Vec<BranchReorderData>>,
    pub edited_title_nodes: Option<Vec<TitleRecord>>,
    pub original_title_nodes: Option<HashMap<u128, TitleRecord>>,
}

impl MergeNodes {
    /// The reorders the merge replays (see `spec_reordered`).
    pub fn reordered_nodes_data(branch: &Branch) -> (r: Option<Vec<BranchReorderData>>)
        ensures
            opt_reorders(r) == spec_reordered(branch),
    {
        match &branch.reordered_nodes {
            None => None,
            Some(v) => {
                let ghost keep = |d: BranchReorderData|
                    !opt_set(branch.deleted_nodes).contains(d.id) && !opt_set(branch.created_nodes).contains(d.id);
                let mut r: Vec<BranchReorderData> = Vec::new();
                let mut i: usize = 0;
                while i < v.len()
                    invariant
                        i <= v.len(),
                        branch.reordered_nodes == Some(*v),
                        keep == (|d: BranchReorderData|
                            !opt_set(branch.deleted_nodes).contains(d.id) && !opt_set(branch.created_nodes).contains(
                                d.id,
                            )),
                        r@ == v@.take(i as int).filter(keep),
                    decreases v.len() - i,
                {
                    let d = v[i];
                    proof {
                        assert(v@.take(i as int + 1).drop_last() =~= v@.take(i as int));
                        assert(v@.take(i as int + 1).last() == v@[i as int]);
                        reveal(Seq::filter);
                    }
                    if !opt_contains(&branch.deleted_nodes, d.id) && !opt_contains(&branch.created_nodes, d.id) {
                        r.push(d);
                    }
                    i = i + 1;
                }
                proof {
                    assert(v@.take(v@.len() as int) =~= v@);
                }
                Some(r)
            },
        }
    }

    /// The ids of the nodes the branch created and did not delete again, in
    /// some order, each once.
    pub fn created_node_ids(branch: &Branch) -> (r: Option<Vec<u128>>)
        ensures
            branch.created_nodes is None ==> r is None,
            branch.created_nodes is Some ==> (r matches Some(v) && v@.to_set() == opt_set(branch.created_nodes) - opt_set(
                branch.deleted_nodes,
            ) && v@.no_duplicates()),
    {
        match &branch.created_nodes {
            None => None,
            Some(s) => {
                let all = set_to_vec(s);
                let mut r: Vec<u128> = Vec::new();
                let mut i: usize = 0;
                while i < all.len()
                    invariant
                        i <= all.len(),
                        all@.no_duplicates(),
                        r@.no_duplicates(),
                        r@.to_set() == all@.take(i as int).to_set() - opt_set(branch.deleted_nodes),
                        forall|j: int| 0 <= j < r@.len() ==> all@.take(i as int).contains(#[trigger] r@[j]),
                    decreases all.len() - i,
                {
                    let x = all[i];
                    proof {
                        all@.take(i as int).lemma_push_to_set_commute(x);
                        assert(all@.take(i as int + 1) =~= all@.take(i as int).push(x));
                        assert(!all@.take(i as int).contains(x));
                    }
                    if !opt_contains(&branch.deleted_nodes, x) {
                        let ghost before = r@;
                        proof {
                            if before.contains(x) {
                                let j = choose|j: int| 0 <= j < before.len() && before[j] == x;
                                assert(all@.take(i as int).contains(before[j]));
                            }
                        }
                        r.push(x);
                        proof {
                            before.lemma_push_to_set_commute(x);
                        }
                    }
                    proof {
                        assert(r@.to_set() =~= all@.take(i as int + 1).to_set() - opt_set(branch.deleted_nodes));
                        assert forall|j: int| 0 <= j < r@.len() implies all@.take(i as int + 1).contains(#[trigger] r@[j]) by {
                            if j < r@.len() - 1 || !(r@[j] == x) {
                                if all@.take(i as int).contains(r@[j]) {
                                    let t = choose|t: int| 0 <= t < i && all@.take(i as int)[t] == r@[j];
                                    assert(all@.take(i as int + 1)[t] == r@[j]);
                                }
                            }
                            if r@[j] == x {
                                assert(all@.take(i as int + 1)[i as int] == x);
                            }
                        }
                    }
                    i = i + 1;
                }
                proof {
                    assert(all@.take(all@.len() as int) =~= all@);
                }
                Some(r)
            },
        }
    }

    /// The nodes a removal deletes (see `spec_removed`): a node whose ancestor
    /// was already deleted goes with it and is skipped.
    pub fn nodes_to_remove(nodes: &Option<Vec<NodeRef>>) -> (r: Vec<u128>)
        ensures
            r@ == match nodes {
                Some(v) => spec_removed(v@),
                None => Seq::<u128>::empty(),
            },
    {
        let mut r: Vec<u128> = Vec::new();
        if let Some(v) = nodes {
            let mut deleted: HashSet<u128> = HashSet::new();
            let mut i: usize = 0;
            while i < v.len()
                invariant
                    i <= v.len(),
                    r@ == spec_removed(v@.take(i as int)),
                    deleted@ == r@.to_set(),
                decreases v.len() - i,
            {
                let n = &v[i];
                proof {
                    assert(v@.take(i as int + 1).drop_last() =~= v@.take(i as int));
                    assert(v@.take(i as int + 1).last() == v@[i as int]);
                }
                let mut skip = false;
                if let Some(a) = &n.ancestor_ids {
                    let mut j: usize = 0;
                    while j < a.len()
                        invariant
                            j <= a.len(),
                            n.ancestor_ids == Some(*a),
                            skip == exists|t: int| 0 <= t < j && deleted@.contains(#[trigger] a@[t]),
                        decreases a.len() - j,
                    {
                        if deleted.contains(&a[j]) {
                            skip = true;
                        }
                        j = j + 1;
                    }
                }
                if !skip {
                    let ghost before = r@;
                    r.push(n.id);
                    deleted.insert(n.id);
                    proof {
                        before.lemma_push_to_set_commute(n.id);
                    }
                }
                i = i + 1;
            }
            proof {
                assert(v@.take(v@.len() as int) =~= v@);
            }
        }
        r
    }

    /// The reorder that replays a branch's move of a node in the original.
    pub fn reorder_params(data: &BranchReorderData, root_id: u128, original_id: u128) -> (p: ReorderParams)
        ensures
            p == (ReorderParams {
                root_id: root_id,
                branch_id: original_id,
                id: data.id,
                new_parent_id: data.new_parent_id,
                new_upper_sibling_id: data.new_upper_sibling_id,
                new_lower_sibling_id: data.new_lower_sibling_id,
                new_order_index_bits: None,
            }),
    {
        ReorderParams {
            root_id,
            branch_id: original_id,
            id: data.id,
            new_parent_id: data.new_parent_id,
            new_upper_sibling_id: data.new_upper_sibling_id,
            new_lower_sibling_id: data.new_lower_sibling_id,
            new_order_index_bits: None,
        }
    }

    /// The reorder that moves a node back to where it was before the branch
    /// moved it: its old parent, at its old order index.
    pub fn undo_reorder_params(data: &BranchReorderData, root_id: u128, original_id: u128) -> (p: ReorderParams)
        ensures
            p == (ReorderParams {
                root_id: root_id,
                branch_id: original_id,
                id: data.id,
                new_parent_id: data.old_parent_id,
                new_upper_sibling_id: None,
                new_lower_sibling_id: None,
                new_order_index_bits: Some(data.old_order_index_bits),
            }),
    {
        ReorderParams {
            root_id,
            branch_id: original_id,
            id: data.id,
            new_parent_id: data.old_parent_id,
            new_upper_sibling_id: None,
            new_lower_sibling_id: None,
            new_order_index_bits: Some(data.old_order_index_bits),
        }
    }

    /// Whether a failed replay of a reorder stops the merge: only a fatal
    /// reorder error does; other failures are passed over.
    pub fn reorder_failure_stops(e: &NodecosmosError) -> (b: bool)
        ensures
            b == (e is FatalReorderError),
    {
        match e {
            NodecosmosError::FatalReorderError(_) => true,
            _ => false,
        }
    }

    /// Records the title changes of the merged nodes (see `record_title_changes`).
    pub fn update_title(&self, branch: &mut Branch) -> (changed: Vec<u128>)
        ensures
            title_changes(final(branch).title_change_by_object) == match (
                self.edited_title_nodes,
                self.original_title_nodes,
            ) {
                (Some(e), Some(o)) => fold_title_changes(title_changes(old(branch).title_change_by_object), e@, o@),
                _ => title_changes(old(branch).title_change_by_object),
            },
            (BranchModel { title_change_by_object: final(branch).title_change_by_object, ..branch_model(old(branch)) })
                == branch_model(final(branch)),
            changed@ == match (self.edited_title_nodes, self.original_title_nodes) {
                (Some(e), Some(o)) => e@.filter(|t: TitleRecord| title_changed(t, o@)).map_values(|t: TitleRecord| t.id),
                _ => Seq::<u128>::empty(),
            },
    {
        record_title_changes(&self.edited_title_nodes, &self.original_title_nodes, branch)
    }
}


/// Every node a removal is given goes: it is deleted, or one of its
/// ancestors is, which takes it along.
pub proof fn lemma_removal_covers_all(nodes: Seq<NodeRef>)
    ensures
        forall|j: int| 0 <= j < nodes.len() ==> spec_removed(nodes).contains((#[trigger] nodes[j]).id) || has_ancestor_in(
            nodes[j],
            spec_removed(nodes).to_set(),
        ),
    decreases nodes.len(),
{
    if nodes.len() > 0 {
        let init = nodes.drop_last();
        lemma_removal_covers_all(init);
        let r = spec_removed(init);
        let full = spec_removed(nodes);
        assert forall|x: u128| r.contains(x) implies full.contains(x) by {
            if full != r {
                assert(full == r.push(nodes.last().id));
                let t = choose|t: int| 0 <= t < r.len() && r[t] == x;
                assert(full[t] == x);
            }
        }
        assert forall|j: int| 0 <= j < nodes.len() implies full.contains((#[trigger] nodes[j]).id) || has_ancestor_in(
            nodes[j],
            full.to_set(),
        ) by {
            if j < nodes.len() - 1 {
                assert(nodes[j] == init[j]);
                if has_ancestor_in(nodes[j], r.to_set()) {
                    let a = nodes[j].ancestor_ids.unwrap();
                    let i = choose|i: int| 0 <= i < a@.len() && r.to_set().contains(#[trigger] a@[i]);
                    assert(full.to_set().contains(a@[i]));
                }
            } else {
                if !has_ancestor_in(nodes.last(), r.to_set()) {
                    assert(full[full.len() - 1] == nodes.last().id);
                } else {
                    let a = nodes.last().ancestor_ids.unwrap();
                    let i = choose|i: int| 0 <= i < a@.len() && r.to_set().contains(#[trigger] a@[i]);
                    assert(full.to_set().contains(a@[i]));
                }
            }
        }
    }
}

} // verus!
