//! The conflict check that runs before a merge. For each kind of object the
//! branch edited or built on, the check collects the ids that should still
//! exist in the original (those the branch itself did not create, delete or
//! restore), looks them up, and records as a conflict those that are gone.
//! A check that records anything stops the merge.
use std::collections::{HashMap, HashSet};
use crate::branch::Branch;
use crate::branch_update::{branch_model, BranchModel};
use crate::errors::NodecosmosError;
use crate::flow_step::FlowStep;
use crate::ids::{opt_set, opt_map, opt_contains, set_to_vec, map_keys, add_all};
use crate::merge_flow_steps::{MergeFlowSteps, opt_steps};
use crate::merge_lists::{seq_without, lemma_seq_without_to_set};
use crate::text::text_from;
use crate::udts::Conflict;
use vstd::prelude::*;

verus! {

broadcast use vstd::std_specs::hash::group_hash_axioms;

/// What the check reads of an io the branch created or restored: the flow
/// and the flow step it belongs to, where it belongs to one.
pub struct IoRef {
    pub id: u128,
    pub flow_id: Option<u128>,
    pub flow_step_id: Option<u128>,
}

/// The kinds of conflict a check records.
#[derive(Clone, Copy, Debug, PartialEq, Eq, Structural)]
pub enum ConflictKind {
    DeletedAncestors,
    DeletedEditedNodes,
    DeletedEditedFlows,
    DeletedEditedFlowSteps,
    ConflictingFlowSteps,
    DeletedEditedIos,
}

/// A conflict record as sets of ids.
#[verifier::ext_equal]
pub struct ConflictModel {
    pub status: Seq<char>,
    pub deleted_ancestors: Option<Set<u128>>,
    pub deleted_edited_nodes: Option<Set<u128>>,
    pub deleted_edited_flows: Option<Set<u128>>,
    pub deleted_edited_flow_steps: Option<Set<u128>>,
    pub conflicting_flow_steps: Option<Set<u128>>,
    pub deleted_edited_ios: Option<Set<u128>>,
}

/// The view of an optional id set.
pub open spec fn opt_set_view(o: Option<HashSet<u128>>) -> Option<Set<u128>> {
    match o {
        Some(s) => Some(s@),
        None => None,
    }
}

/// The model of a conflict record.
pub open spec fn conflict_model(c: Conflict) -> ConflictModel {
    ConflictModel {
        status: c.status@,
        deleted_ancestors: opt_set_view(c.deleted_ancestors),
        deleted_edited_nodes: opt_set_view(c.deleted_edited_nodes),
        deleted_edited_flows: opt_set_view(c.deleted_edited_flows),
        deleted_edited_flow_steps: opt_set_view(c.deleted_edited_flow_steps),
        conflicting_flow_steps: opt_set_view(c.conflicting_flow_steps),
        deleted_edited_ios: opt_set_view(c.deleted_edited_ios),
    }
}

/// The model of an optional conflict record.
pub open spec fn opt_conflict_model(c: Option<Conflict>) -> Option<ConflictModel> {
    match c {
        Some(c) => Some(conflict_model(c)),
        None => None,
    }
}

/// A conflict record with nothing in it.
pub open spec fn empty_conflict() -> ConflictModel {
    ConflictModel {
        status: Seq::empty(),
        deleted_ancestors: None,
        deleted_edited_nodes: None,
        deleted_edited_flows: None,
        deleted_edited_flow_steps: None,
        conflicting_flow_steps: None,
        deleted_edited_ios: None,
    }
}

/// The branch's conflict record after recording `ids` of a kind: nothing
/// changes when there are none; otherwise the record is created if absent,
/// deleted ancestors are added to those already recorded, and the other
/// kinds are replaced.
pub open spec fn with_conflict(c: Option<ConflictModel>, kind: ConflictKind, ids: Set<u128>) -> Option<ConflictModel> {
    if ids.is_empty() {
        c
    } else {
        let base = match c {
            Some(m) => m,
            None => empty_conflict(),
        };
        Some(
            match kind {
                ConflictKind::DeletedAncestors => ConflictModel {
                    deleted_ancestors: Some(
                        match base.deleted_ancestors {
                            Some(s) => s + ids,
                            None => ids,
                        },
                    ),
                    ..base
                },
                ConflictKind::DeletedEditedNodes => ConflictModel { deleted_edited_nodes: Some(ids), ..base },
                ConflictKind::DeletedEditedFlows => ConflictModel { deleted_edited_flows: Some(ids), ..base },
                ConflictKind::DeletedEditedFlowSteps => ConflictModel { deleted_edited_flow_steps: Some(ids), ..base },
                ConflictKind::ConflictingFlowSteps => ConflictModel { conflicting_flow_steps: Some(ids), ..base },
                ConflictKind::DeletedEditedIos => ConflictModel { deleted_edited_ios: Some(ids), ..base },
            },
        )
    }
}

/// The branch model with only its conflict record possibly changed.
pub open spec fn same_but_conflict(a: BranchModel, b: BranchModel) -> bool {
    (BranchModel { conflict: a.conflict, ..b }) == a
}

/// The ids of a list that are in none of three sets.
pub open spec fn without_three(ids: Set<u128>, a: Set<u128>, b: Set<u128>, c: Set<u128>) -> Set<u128> {
    ids - a - b - c
}

/// The flows of a list of flow steps.
pub open spec fn flow_ids_of(steps: Seq<FlowStep>) -> Set<u128> {
    steps.map_values(|f: FlowStep| f.flow_id).to_set()
}

/// The ids of a list of flow steps.
pub open spec fn step_ids_of(steps: Seq<FlowStep>) -> Set<u128> {
    steps.map_values(|f: FlowStep| f.id).to_set()
}

/// The flows of the flow steps held in a map.
pub open spec fn map_flow_ids(m: Map<u128, FlowStep>) -> Set<u128> {
    m.dom().map(|k: u128| m[k].flow_id)
}

/// The ids of the flow steps held in a map.
pub open spec fn map_step_ids(m: Map<u128, FlowStep>) -> Set<u128> {
    m.dom().map(|k: u128| m[k].id)
}

/// The values present in a list of optional ids.
pub open spec fn present_ids(s: Seq<Option<u128>>) -> Set<u128> {
    Set::new(|x: u128| s.contains(Some(x)))
}

/// The flows that a list of ios belongs to.
pub open spec fn io_flow_ids(ios: Seq<IoRef>) -> Set<u128> {
    present_ids(ios.map_values(|io: IoRef| io.flow_id))
}

/// The flow steps that a list of ios belongs to.
pub open spec fn io_flow_step_ids(ios: Seq<IoRef>) -> Set<u128> {
    present_ids(ios.map_values(|io: IoRef| io.flow_step_id))
}

/// Mapping a set with one element more maps that element too.
pub proof fn lemma_set_map_insert(s: Set<u128>, x: u128, f: spec_fn(u128) -> u128)
    ensures
        s.insert(x).map(f) == s.map(f).insert(f(x)),
{
    assert forall|a: u128| #[trigger] s.insert(x).map(f).contains(a) <==> s.map(f).insert(f(x)).contains(a) by {
        if s.insert(x).map(f).contains(a) {
            let y = choose|y: u128| s.insert(x).contains(y) && a == f(y);
            if y != x {
                assert(s.contains(y));
                assert(s.map(f).contains(a));
            }
        }
        if s.map(f).contains(a) {
            let y = choose|y: u128| s.contains(y) && a == f(y);
            assert(s.insert(x).contains(y));
        }
        if a == f(x) {
            assert(s.insert(x).contains(x));
        }
    }
    assert(s.insert(x).map(f) =~= s.map(f).insert(f(x)));
}

/// One optional id more adds its value, if it has one.
pub proof fn lemma_present_ids_push(s: Seq<Option<u128>>, o: Option<u128>)
    ensures
        present_ids(s.push(o)) == match o {
            Some(x) => present_ids(s).insert(x),
            None => present_ids(s),
        },
{
    assert forall|x: u128| #[trigger] present_ids(s.push(o)).contains(x) <==> (match o {
        Some(y) => present_ids(s).insert(y),
        None => present_ids(s),
    }).contains(x) by {
        if s.push(o).contains(Some(x)) {
            let j = choose|j: int| 0 <= j < s.push(o).len() && s.push(o)[j] == Some(x);
            if j < s.len() {
                assert(s[j] == Some(x));
                assert(s.contains(Some(x)));
            }
        }
        if s.contains(Some(x)) {
            let j = choose|j: int| 0 <= j < s.len() && s[j] == Some(x);
            assert(s.push(o)[j] == Some(x));
        }
        if o == Some(x) {
            assert(s.push(o)[s.len() as int] == Some(x));
        }
    }
    assert(present_ids(s.push(o)) =~= match o {
        Some(x) => present_ids(s).insert(x),
        None => present_ids(s),
    });
}

/// An optional list of ios as a sequence; absent is empty.
pub open spec fn opt_ios(o: Option<Vec<IoRef>>) -> Seq<IoRef> {
    match o {
        Some(v) => v@,
        None => Seq::empty(),
    }
}

/// The flows whose edits the merge carries: those whose description the
/// branch edited, and those holding the flow steps and ios the branch
/// created or restored and the steps whose nodes or inputs it added.
pub open spec fn spec_edited_flows(
    b: &Branch,
    fs: &MergeFlowSteps,
    created_ios: Seq<IoRef>,
    restored_ios: Seq<IoRef>,
) -> Set<u128> {
    opt_set(b.edited_description_flows) + flow_ids_of(opt_steps(fs.created_flow_steps)) + flow_ids_of(
        opt_steps(fs.restored_flow_steps),
    ) + map_flow_ids(opt_map(fs.branched_created_fs_nodes_flow_steps)) + map_flow_ids(
        opt_map(fs.branched_created_fs_inputs_flow_steps),
    ) + io_flow_ids(created_ios) + io_flow_ids(restored_ios)
}

/// The flow steps whose edits the merge carries: those whose description the
/// branch edited, those whose nodes it added to, and those holding ios it created.
pub open spec fn spec_edited_flow_steps(b: &Branch, fs: &MergeFlowSteps, created_ios: Seq<IoRef>) -> Set<u128> {
    opt_set(b.edited_description_flow_steps) + map_step_ids(opt_map(fs.branched_created_fs_nodes_flow_steps))
        + step_ids_of(opt_steps(fs.created_fs_nodes_flow_steps)) + io_flow_step_ids(created_ios)
}

/// The flow steps the branch created or restored that may collide with an
/// original step: those not in a flow the branch created and not kept
/// despite an earlier conflict.
pub open spec fn spec_steps_to_check(b: &Branch, fs: &MergeFlowSteps) -> Seq<FlowStep> {
    (opt_steps(fs.created_flow_steps) + opt_steps(fs.restored_flow_steps)).filter(
        |f: FlowStep| !opt_set(b.created_flows).contains(f.flow_id) && !opt_set(b.kept_flow_steps).contains(f.id),
    )
}

/// The steps found to collide: those for which an original step stands at
/// the same index, unless the branch deleted that original step.
pub open spec fn spec_colliding(found: Seq<(u128, Option<u128>)>, deleted_steps: Set<u128>) -> Set<u128> {
    Set::new(
        |x: u128| exists|j: int| 0 <= j < found.len() && (#[trigger] found[j]).0 == x && collides(found[j], deleted_steps),
    )
}

/// Whether an original step stands at a checked step's index and the branch
/// did not delete it.
pub open spec fn collides(p: (u128, Option<u128>), deleted_steps: Set<u128>) -> bool {
    match p.1 {
        Some(o) => !deleted_steps.contains(o),
        None => false,
    }
}

/// The ids of `v` that are in none of three optional sets, in their order.
fn filter_out_three(
    v: &Vec<u128>,
    a: &Option<HashSet<u128>>,
    b: &Option<HashSet<u128>>,
    c: &Option<HashSet<u128>>,
) -> (r: Vec<u128>)
    requires
        v@.no_duplicates(),
    ensures
        r@.to_set() == without_three(v@.to_set(), opt_set(*a), opt_set(*b), opt_set(*c)),
        r@.no_duplicates(),
{
    let ghost excl = opt_set(*a) + opt_set(*b) + opt_set(*c);
    let mut r: Vec<u128> = Vec::new();
    let mut i: usize = 0;
    while i < v.len()
        invariant
            i <= v.len(),
            excl == opt_set(*a) + opt_set(*b) + opt_set(*c),
            r@ == seq_without(v@.take(i as int), excl),
        decreases v.len() - i,
    {
        proof {
            assert(v@.take(i as int + 1).drop_last() =~= v@.take(i as int));
        }
        let x = v[i];
        if !opt_contains(a, x) && !opt_contains(b, x) && !opt_contains(c, x) {
            r.push(x);
        }
        i = i + 1;
    }
    proof {
        assert(v@.take(v@.len() as int) =~= v@);
        lemma_seq_without_to_set(v@, excl);
        assert(r@.to_set() =~= without_three(v@.to_set(), opt_set(*a), opt_set(*b), opt_set(*c)));
    }
    r
}

/// The ids of a list that are not in a set, as a set.
fn ids_not_found(v: &Vec<u128>, found: &HashSet<u128>) -> (r: HashSet<u128>)
    ensures
        r@ == v@.to_set() - found@,
{
    let mut r: HashSet<u128> = HashSet::new();
    let mut i: usize = 0;
    while i < v.len()
        invariant
            i <= v.len(),
            r@ == v@.take(i as int).to_set() - found@,
        decreases v.len() - i,
    {
        proof {
            v@.take(i as int).lemma_push_to_set_commute(v@[i as int]);
            assert(v@.take(i as int + 1) =~= v@.take(i as int).push(v@[i as int]));
        }
        if !found.contains(&v[i]) {
            r.insert(v[i]);
        }
        proof {
            assert(r@ =~= v@.take(i as int + 1).to_set() - found@);
        }
        i = i + 1;
    }
    proof {
        assert(v@.take(v@.len() as int) =~= v@);
    }
    r
}

/// Adds the ids of a set to another.
fn union_into(target: &mut HashSet<u128>, ids: &HashSet<u128>)
    ensures
        final(target)@ == old(target)@ + ids@,
{
    let v = set_to_vec(ids);
    add_all(target, &v);
    proof {
        assert(final(target)@ =~= old(target)@ + ids@);
    }
}

/// A copy of an id set.
fn copy_set(s: &HashSet<u128>) -> (r: HashSet<u128>)
    ensures
        r@ == s@,
{
    let mut r: HashSet<u128> = HashSet::new();
    union_into(&mut r, s);
    proof {
        assert(r@ =~= s@);
    }
    r
}

/// Adds the flows of a list of flow steps to a set.
fn add_step_flow_ids(target: &mut HashSet<u128>, steps: &Option<Vec<FlowStep>>)
    ensures
        final(target)@ == old(target)@ + flow_ids_of(opt_steps(*steps)),
{
    let ghost start = target@;
    if let Some(v) = steps {
        let mut i: usize = 0;
        while i < v.len()
            invariant
                i <= v.len(),
                *steps == Some(*v),
                target@ == start + flow_ids_of(v@.take(i as int)),
            decreases v.len() - i,
        {
            proof {
                assert(v@.take(i as int + 1).map_values(|f: FlowStep| f.flow_id) =~= v@.take(i as int).map_values(
                    |f: FlowStep| f.flow_id,
                ).push(v@[i as int].flow_id));
                v@.take(i as int).map_values(|f: FlowStep| f.flow_id).lemma_push_to_set_commute(v@[i as int].flow_id);
            }
            target.insert(v[i].flow_id);
            proof {
                assert(target@ =~= start + flow_ids_of(v@.take(i as int + 1)));
            }
            i = i + 1;
        }
        proof {
            assert(v@.take(v@.len() as int) =~= v@);
        }
    } else {
        proof {
            assert(Seq::<FlowStep>::empty().map_values(|f: FlowStep| f.flow_id) =~= Seq::<u128>::empty());
            assert(target@ =~= start + flow_ids_of(opt_steps(*steps)));
        }
    }
}

/// Adds the ids of a list of flow steps to a set.
fn add_step_ids(target: &mut HashSet<u128>, steps: &Option<Vec<FlowStep>>)
    ensures
        final(target)@ == old(target)@ + step_ids_of(opt_steps(*steps)),
{
    let ghost start = target@;
    if let Some(v) = steps {
        let mut i: usize = 0;
        while i < v.len()
            invariant
                i <= v.len(),
                *steps == Some(*v),
                target@ == start + step_ids_of(v@.take(i as int)),
            decreases v.len() - i,
        {
            proof {
                assert(v@.take(i as int + 1).map_values(|f: FlowStep| f.id) =~= v@.take(i as int).map_values(
                    |f: FlowStep| f.id,
                ).push(v@[i as int].id));
                v@.take(i as int).map_values(|f: FlowStep| f.id).lemma_push_to_set_commute(v@[i as int].id);
            }
            target.insert(v[i].id);
            proof {
                assert(target@ =~= start + step_ids_of(v@.take(i as int + 1)));
            }
            i = i + 1;
        }
        proof {
            assert(v@.take(v@.len() as int) =~= v@);
        }
    } else {
        proof {
            assert(Seq::<FlowStep>::empty().map_values(|f: FlowStep| f.id) =~= Seq::<u128>::empty());
            assert(target@ =~= start + step_ids_of(opt_steps(*steps)));
        }
    }
}

/// Adds the flows of the flow steps held in a map to a set.
fn add_map_flow_ids(target: &mut HashSet<u128>, steps: &Option<HashMap<u128, FlowStep>>)
    ensures
        final(target)@ == old(target)@ + map_flow_ids(opt_map(*steps)),
{
    let ghost start = target@;
    if let Some(m) = steps {
        let keys = map_keys(m);
        let ghost f = |k: u128| m@[k].flow_id;
        let mut i: usize = 0;
        while i < keys.len()
            invariant
                i <= keys.len(),
                *steps == Some(*m),
                keys@.to_set() == m@.dom(),
                keys@.no_duplicates(),
                f == (|k: u128| m@[k].flow_id),
                target@ == start + keys@.take(i as int).to_set().map(f),
            decreases keys.len() - i,
        {
            let k = keys[i];
            proof {
                crate::ids::lemma_take_one_more(keys@, i as int);
                lemma_set_map_insert(keys@.take(i as int).to_set(), k, f);
            }
            let fs = m.get(&k).unwrap();
            target.insert(fs.flow_id);
            proof {
                assert(target@ =~= start + keys@.take(i as int + 1).to_set().map(f));
            }
            i = i + 1;
        }
        proof {
            assert(keys@.take(keys@.len() as int) =~= keys@);
            assert(keys@.to_set().map(f) =~= map_flow_ids(opt_map(*steps)));
        }
    } else {
        proof {
            assert(map_flow_ids(opt_map(*steps)) =~= Set::<u128>::empty());
            assert(target@ =~= start + map_flow_ids(opt_map(*steps)));
        }
    }
}

/// Adds the ids of the flow steps held in a map to a set.
fn add_map_step_ids(target: &mut HashSet<u128>, steps: &Option<HashMap<u128, FlowStep>>)
    ensures
        final(target)@ == old(target)@ + map_step_ids(opt_map(*steps)),
{
    let ghost start = target@;
    if let Some(m) = steps {
        let keys = map_keys(m);
        let ghost f = |k: u128| m@[k].id;
        let mut i: usize = 0;
        while i < keys.len()
            invariant
                i <= keys.len(),
                *steps == Some(*m),
                keys@.to_set() == m@.dom(),
                keys@.no_duplicates(),
                f == (|k: u128| m@[k].id),
                target@ == start + keys@.take(i as int).to_set().map(f),
            decreases keys.len() - i,
        {
            let k = keys[i];
            proof {
                crate::ids::lemma_take_one_more(keys@, i as int);
                lemma_set_map_insert(keys@.take(i as int).to_set(), k, f);
            }
            let fs = m.get(&k).unwrap();
            target.insert(fs.id);
            proof {
                assert(target@ =~= start + keys@.take(i as int + 1).to_set().map(f));
            }
            i = i + 1;
        }
        proof {
            assert(keys@.take(keys@.len() as int) =~= keys@);
            assert(keys@.to_set().map(f) =~= map_step_ids(opt_map(*steps)));
        }
    } else {
        proof {
            assert(map_step_ids(opt_map(*steps)) =~= Set::<u128>::empty());
            assert(target@ =~= start + map_step_ids(opt_map(*steps)));
        }
    }
}

/// Adds the flows (or, with `steps` set, the flow steps) that a list of ios
/// belongs to.
fn add_io_ids(target: &mut HashSet<u128>, ios: &Option<Vec<IoRef>>, steps: bool)
    ensures
        final(target)@ == old(target)@ + if steps {
            io_flow_step_ids(opt_ios(*ios))
        } else {
            io_flow_ids(opt_ios(*ios))
        },
{
    let ghost start = target@;
    let ghost g = if steps {
        |io: IoRef| io.flow_step_id
    } else {
        |io: IoRef| io.flow_id
    };
    if let Some(v) = ios {
        let mut i: usize = 0;
        while i < v.len()
            invariant
                i <= v.len(),
                *ios == Some(*v),
                g == if steps {
                    |io: IoRef| io.flow_step_id
                } else {
                    |io: IoRef| io.flow_id
                },
                target@ == start + present_ids(v@.take(i as int).map_values(g)),
            decreases v.len() - i,
        {
            let o = if steps {
                v[i].flow_step_id
            } else {
                v[i].flow_id
            };
            proof {
                assert(o == g(v@[i as int]));
                assert(v@.take(i as int + 1).map_values(g) =~= v@.take(i as int).map_values(g).push(o));
                lemma_present_ids_push(v@.take(i as int).map_values(g), o);
            }
            if let Some(x) = o {
                target.insert(x);
            }
            proof {
                assert(target@ =~= start + present_ids(v@.take(i as int + 1).map_values(g)));
            }
            i = i + 1;
        }
        proof {
            assert(v@.take(v@.len() as int) =~= v@);
            if steps {
                assert(v@.map_values(g) =~= v@.map_values(|io: IoRef| io.flow_step_id));
            } else {
                assert(v@.map_values(g) =~= v@.map_values(|io: IoRef| io.flow_id));
            }
        }
    } else {
        proof {
            assert(present_ids(Seq::<IoRef>::empty().map_values(|io: IoRef| io.flow_step_id)) =~= Set::<u128>::empty());
            assert(present_ids(Seq::<IoRef>::empty().map_values(|io: IoRef| io.flow_id)) =~= Set::<u128>::empty());
            assert(target@ =~= start + if steps {
                io_flow_step_ids(opt_ios(*ios))
            } else {
                io_flow_ids(opt_ios(*ios))
            });
        }
    }
}

/// The conflict check of a merge, over the branch it checks.
pub struct MergeConflicts {
    pub branch: Branch,
}

impl MergeConflicts {
    /// A check of `branch`.
    pub fn new(branch: Branch) -> (c: MergeConflicts)
        ensures
            c.branch == branch,
    {
        MergeConflicts { branch }
    }

    /// Forgets the conflicts of an earlier check.
    pub fn reset_conflicts(&mut self)
        ensures
            final(self).branch.conflict is None,
            same_but_conflict(branch_model(&final(self).branch), branch_model(&old(self).branch)),
    {
        self.branch.conflict = None;
    }

    /// Records conflicting ids of a kind (see `with_conflict`).
    pub fn record_conflict(&mut self, kind: ConflictKind, ids: HashSet<u128>)
        ensures
            opt_conflict_model(final(self).branch.conflict) == with_conflict(
                opt_conflict_model(old(self).branch.conflict),
                kind,
                ids@,
            ),
            same_but_conflict(branch_model(&final(self).branch), branch_model(&old(self).branch)),
    {
        if ids.is_empty() {
            return;
        }
        let mut c = match self.branch.conflict.take() {
            Some(c) => c,
            None => Conflict::default_conflict(),
        };
        let ghost base = conflict_model(c);
        match kind {
            ConflictKind::DeletedAncestors => {
                let merged = match c.deleted_ancestors.take() {
                    Some(mut s) => {
                        union_into(&mut s, &ids);
                        s
                    },
                    None => ids,
                };
                c.deleted_ancestors = Some(merged);
            },
            ConflictKind::DeletedEditedNodes => {
                c.deleted_edited_nodes = Some(ids);
            },
            ConflictKind::DeletedEditedFlows => {
                c.deleted_edited_flows = Some(ids);
            },
            ConflictKind::DeletedEditedFlowSteps => {
                c.deleted_edited_flow_steps = Some(ids);
            },
            ConflictKind::ConflictingFlowSteps => {
                c.conflicting_flow_steps = Some(ids);
            },
            ConflictKind::DeletedEditedIos => {
                c.deleted_edited_ios = Some(ids);
            },
        }
        self.branch.conflict = Some(c);
    }

    /// The ancestors of a node the branch created that should still exist in
    /// the original: those the branch did not create, restore or delete.
    pub fn deleted_ancestor_candidates(&self, ancestor_ids: &HashSet<u128>) -> (r: Vec<u128>)
        ensures
            r@.to_set() == without_three(
                ancestor_ids@,
                opt_set(self.branch.created_nodes),
                opt_set(self.branch.restored_nodes),
                opt_set(self.branch.deleted_nodes),
            ),
            r@.no_duplicates(),
    {
        let v = set_to_vec(ancestor_ids);
        filter_out_three(&v, &self.branch.created_nodes, &self.branch.restored_nodes, &self.branch.deleted_nodes)
    }

    /// Records as deleted ancestors the candidates not found in the original
    /// and neither restored nor deleted by the branch.
    pub fn record_deleted_ancestors(&mut self, candidates: &Vec<u128>, found: &HashSet<u128>)
        ensures
            opt_conflict_model(final(self).branch.conflict) == with_conflict(
                opt_conflict_model(old(self).branch.conflict),
                ConflictKind::DeletedAncestors,
                candidates@.to_set() - found@ - opt_set(old(self).branch.restored_nodes) - opt_set(
                    old(self).branch.deleted_nodes,
                ),
            ),
            same_but_conflict(branch_model(&final(self).branch), branch_model(&old(self).branch)),
    {
        let missing = ids_not_found(candidates, found);
        let v = set_to_vec(&missing);
        let none: Option<HashSet<u128>> = None;
        let kept = filter_out_three(&v, &self.branch.restored_nodes, &self.branch.deleted_nodes, &none);
        let mut ids: HashSet<u128> = HashSet::new();
        add_all(&mut ids, &kept);
        proof {
            assert(ids@ =~= candidates@.to_set() - found@ - opt_set(self.branch.restored_nodes) - opt_set(
                self.branch.deleted_nodes,
            ));
        }
        self.record_conflict(ConflictKind::DeletedAncestors, ids);
    }

    /// The nodes whose workflow or description the branch edited that should
    /// still exist in the original.
    pub fn edited_node_candidates(&self) -> (r: Vec<u128>)
        ensures
            r@.to_set() == without_three(
                opt_set(self.branch.edited_workflow_nodes) + opt_set(self.branch.edited_description_nodes),
                opt_set(self.branch.created_nodes),
                opt_set(self.branch.deleted_nodes),
                opt_set(self.branch.restored_nodes),
            ),
            r@.no_duplicates(),
    {
        let mut edited: HashSet<u128> = HashSet::new();
        if let Some(s) = &self.branch.edited_workflow_nodes {
            union_into(&mut edited, s);
        }
        if let Some(s) = &self.branch.edited_description_nodes {
            union_into(&mut edited, s);
        }
        proof {
            assert(edited@ =~= opt_set(self.branch.edited_workflow_nodes) + opt_set(self.branch.edited_description_nodes));
        }
        let v = set_to_vec(&edited);
        filter_out_three(&v, &self.branch.created_nodes, &self.branch.deleted_nodes, &self.branch.restored_nodes)
    }

    /// Records as deleted edited nodes the candidates not found in the original.
    pub fn record_deleted_edited_nodes(&mut self, candidates: &Vec<u128>, found: &HashSet<u128>)
        ensures
            opt_conflict_model(final(self).branch.conflict) == with_conflict(
                opt_conflict_model(old(self).branch.conflict),
                ConflictKind::DeletedEditedNodes,
                candidates@.to_set() - found@,
            ),
            same_but_conflict(branch_model(&final(self).branch), branch_model(&old(self).branch)),
    {
        let ids = ids_not_found(candidates, found);
        self.record_conflict(ConflictKind::DeletedEditedNodes, ids);
    }

    /// The ios whose description the branch edited that should still exist in
    /// the original.
    pub fn edited_io_candidates(&self) -> (r: Vec<u128>)
        ensures
            r@.to_set() == without_three(
                opt_set(self.branch.edited_description_ios),
                opt_set(self.branch.created_ios),
                opt_set(self.branch.deleted_ios),
                opt_set(self.branch.restored_ios),
            ),
            r@.no_duplicates(),
    {
        let empty: HashSet<u128> = HashSet::new();
        let edited = match &self.branch.edited_description_ios {
            Some(s) => s,
            None => &empty,
        };
        let v = set_to_vec(edited);
        filter_out_three(&v, &self.branch.created_ios, &self.branch.deleted_ios, &self.branch.restored_ios)
    }

    /// Records as deleted edited ios the candidates not found in the original.
    pub fn record_deleted_edited_ios(&mut self, candidates: &Vec<u128>, found: &HashSet<u128>)
        ensures
            opt_conflict_model(final(self).branch.conflict) == with_conflict(
                opt_conflict_model(old(self).branch.conflict),
                ConflictKind::DeletedEditedIos,
                candidates@.to_set() - found@,
            ),
            same_but_conflict(branch_model(&final(self).branch), branch_model(&old(self).branch)),
    {
        let ids = ids_not_found(candidates, found);
        self.record_conflict(ConflictKind::DeletedEditedIos, ids);
    }

    /// The flows that should still exist in the original for the merge to
    /// carry its edits: those of `spec_edited_flows` that the branch did not
    /// create, delete or restore.
    pub fn edited_flow_candidates(
        &self,
        flow_steps: &MergeFlowSteps,
        created_ios: &Option<Vec<IoRef>>,
        restored_ios: &Option<Vec<IoRef>>,
    ) -> (r: Vec<u128>)
        ensures
            r@.to_set() == without_three(
                spec_edited_flows(&self.branch, flow_steps, opt_ios(*created_ios), opt_ios(*restored_ios)),
                opt_set(self.branch.created_flows),
                opt_set(self.branch.deleted_flows),
                opt_set(self.branch.restored_flows),
            ),
            r@.no_duplicates(),
    {
        let mut edited: HashSet<u128> = HashSet::new();
        if let Some(s) = &self.branch.edited_description_flows {
            union_into(&mut edited, s);
        }
        proof {
            assert(edited@ =~= opt_set(self.branch.edited_description_flows));
        }
        add_step_flow_ids(&mut edited, &flow_steps.created_flow_steps);
        add_step_flow_ids(&mut edited, &flow_steps.restored_flow_steps);
        add_map_flow_ids(&mut edited, &flow_steps.branched_created_fs_nodes_flow_steps);
        add_map_flow_ids(&mut edited, &flow_steps.branched_created_fs_inputs_flow_steps);
        add_io_ids(&mut edited, created_ios, false);
        add_io_ids(&mut edited, restored_ios, false);
        let v = set_to_vec(&edited);
        filter_out_three(&v, &self.branch.created_flows, &self.branch.deleted_flows, &self.branch.restored_flows)
    }

    /// Records as deleted edited flows the candidates not found in the
    /// original; the lookup is made only for branches that edited workflows,
    /// so for others nothing is recorded.
    pub fn record_deleted_edited_flows(&mut self, candidates: &Vec<u128>, found: &HashSet<u128>)
        ensures
            opt_conflict_model(final(self).branch.conflict) == if old(self).branch.edited_workflow_nodes is Some {
                with_conflict(
                    opt_conflict_model(old(self).branch.conflict),
                    ConflictKind::DeletedEditedFlows,
                    candidates@.to_set() - found@,
                )
            } else {
                opt_conflict_model(old(self).branch.conflict)
            },
            same_but_conflict(branch_model(&final(self).branch), branch_model(&old(self).branch)),
    {
        if self.branch.edited_workflow_nodes.is_some() {
            let ids = ids_not_found(candidates, found);
            self.record_conflict(ConflictKind::DeletedEditedFlows, ids);
        }
    }

    /// The flow steps that should still exist in the original for the merge
    /// to carry its edits: those of `spec_edited_flow_steps` that the branch
    /// did not create, delete or restore.
    pub fn edited_flow_step_candidates(&self, flow_steps: &MergeFlowSteps, created_ios: &Option<Vec<IoRef>>) -> (r: Vec<
        u128,
    >)
        ensures
            r@.to_set() == without_three(
                spec_edited_flow_steps(&self.branch, flow_steps, opt_ios(*created_ios)),
                opt_set(self.branch.created_flow_steps),
                opt_set(self.branch.deleted_flow_steps),
                opt_set(self.branch.restored_flow_steps),
            ),
            r@.no_duplicates(),
    {
        let mut edited: HashSet<u128> = HashSet::new();
        if let Some(s) = &self.branch.edited_description_flow_steps {
            union_into(&mut edited, s);
        }
        proof {
            assert(edited@ =~= opt_set(self.branch.edited_description_flow_steps));
        }
        add_map_step_ids(&mut edited, &flow_steps.branched_created_fs_nodes_flow_steps);
        add_step_ids(&mut edited, &flow_steps.created_fs_nodes_flow_steps);
        add_io_ids(&mut edited, created_ios, true);
        let v = set_to_vec(&edited);
        filter_out_three(
            &v,
            &self.branch.created_flow_steps,
            &self.branch.deleted_flow_steps,
            &self.branch.restored_flow_steps,
        )
    }

    /// Records as deleted edited flow steps the candidates not found in the
    /// original; as for flows, only for branches that edited workflows.
    pub fn record_deleted_edited_flow_steps(&mut self, candidates: &Vec<u128>, found: &HashSet<u128>)
        ensures
            opt_conflict_model(final(self).branch.conflict) == if old(self).branch.edited_workflow_nodes is Some {
                with_conflict(
                    opt_conflict_model(old(self).branch.conflict),
                    ConflictKind::DeletedEditedFlowSteps,
                    candidates@.to_set() - found@,
                )
            } else {
                opt_conflict_model(old(self).branch.conflict)
            },
            same_but_conflict(branch_model(&final(self).branch), branch_model(&old(self).branch)),
    {
        if self.branch.edited_workflow_nodes.is_some() {
            let ids = ids_not_found(candidates, found);
            self.record_conflict(ConflictKind::DeletedEditedFlowSteps, ids);
        }
    }

    /// The ids of the created and restored flow steps to look up an original
    /// step at the same index for (see `spec_steps_to_check`), in order.
    pub fn steps_to_check(&self, flow_steps: &MergeFlowSteps) -> (r: Vec<u128>)
        ensures
            r@ == spec_steps_to_check(&self.branch, flow_steps).map_values(|f: FlowStep| f.id),
    {
        let ghost keep = |f: FlowStep|
            !opt_set(self.branch.created_flows).contains(f.flow_id) && !opt_set(self.branch.kept_flow_steps).contains(
                f.id,
            );
        let mut r: Vec<u128> = Vec::new();
        let empty: Vec<FlowStep> = Vec::new();
        let created = match &flow_steps.created_flow_steps {
            Some(v) => v,
            None => &empty,
        };
        let restored = match &flow_steps.restored_flow_steps {
            Some(v) => v,
            None => &empty,
        };
        self.push_steps_to_check(&mut r, created);
        self.push_steps_to_check(&mut r, restored);
        proof {
            Seq::filter_distributes_over_add(created@, restored@, keep);
            assert(opt_steps(flow_steps.created_flow_steps) + opt_steps(flow_steps.restored_flow_steps) =~= created@
                + restored@);
            assert(r@ =~= spec_steps_to_check(&self.branch, flow_steps).map_values(|f: FlowStep| f.id));
        }
        r
    }

    /// Appends the ids of the steps of `steps` to check (see `spec_steps_to_check`).
    fn push_steps_to_check(&self, r: &mut Vec<u128>, steps: &Vec<FlowStep>)
        ensures
            final(r)@ == old(r)@ + steps@.filter(
                |f: FlowStep|
                    !opt_set(self.branch.created_flows).contains(f.flow_id) && !opt_set(
                        self.branch.kept_flow_steps,
                    ).contains(f.id),
            ).map_values(|f: FlowStep| f.id),
    {
        let ghost keep = |f: FlowStep|
            !opt_set(self.branch.created_flows).contains(f.flow_id) && !opt_set(self.branch.kept_flow_steps).contains(
                f.id,
            );
        let ghost start = r@;
        let mut i: usize = 0;
        while i < steps.len()
            invariant
                i <= steps.len(),
                keep == (|f: FlowStep|
                    !opt_set(self.branch.created_flows).contains(f.flow_id) && !opt_set(
                        self.branch.kept_flow_steps,
                    ).contains(f.id)),
                r@ == start + steps@.take(i as int).filter(keep).map_values(|f: FlowStep| f.id),
            decreases steps.len() - i,
        {
            let f = &steps[i];
            proof {
                assert(steps@.take(i as int + 1).drop_last() =~= steps@.take(i as int));
                assert(steps@.take(i as int + 1).filter(keep) == if keep(steps@[i as int]) {
                    steps@.take(i as int).filter(keep).push(steps@[i as int])
                } else {
                    steps@.take(i as int).filter(keep)
                }) by {
                    reveal(Seq::filter);
                    assert(steps@.take(i as int + 1).last() == steps@[i as int]);
                }
            }
            if !opt_contains(&self.branch.created_flows, f.flow_id) && !opt_contains(&self.branch.kept_flow_steps, f.id) {
                r.push(f.id);
            }
            proof {
                assert(r@ =~= start + steps@.take(i as int + 1).filter(keep).map_values(|f: FlowStep| f.id));
            }
            i = i + 1;
        }
        proof {
            assert(steps@.take(steps@.len() as int) =~= steps@);
        }
    }

    /// Records as conflicting the checked steps that collide with an original
    /// step at their index (see `spec_colliding`). `found` pairs each checked
    /// step with the original step found at its index, if any.
    pub fn record_conflicting_flow_steps(&mut self, found: &Vec<(u128, Option<u128>)>)
        ensures
            opt_conflict_model(final(self).branch.conflict) == with_conflict(
                opt_conflict_model(old(self).branch.conflict),
                ConflictKind::ConflictingFlowSteps,
                spec_colliding(found@, opt_set(old(self).branch.deleted_flow_steps)),
            ),
            same_but_conflict(branch_model(&final(self).branch), branch_model(&old(self).branch)),
    {
        let ghost deleted = opt_set(self.branch.deleted_flow_steps);
        let mut ids: HashSet<u128> = HashSet::new();
        let mut i: usize = 0;
        while i < found.len()
            invariant
                i <= found.len(),
                deleted == opt_set(self.branch.deleted_flow_steps),
                ids@ == spec_colliding(found@.take(i as int), deleted),
            decreases found.len() - i,
        {
            let (id, at_index) = found[i];
            let ghost before = ids@;
            if let Some(o) = at_index {
                if !opt_contains(&self.branch.deleted_flow_steps, o) {
                    ids.insert(id);
                }
            }
            proof {
                let t = found@.take(i as int + 1);
                assert forall|x: u128| #[trigger] ids@.contains(x) <==> spec_colliding(t, deleted).contains(x) by {
                    if spec_colliding(found@.take(i as int), deleted).contains(x) {
                        let j = choose|j: int|
                            0 <= j < found@.take(i as int).len() && (#[trigger] found@.take(i as int)[j]).0 == x
                                && collides(found@.take(i as int)[j], deleted);
                        assert(t[j] == found@.take(i as int)[j]);
                    }
                    if spec_colliding(t, deleted).contains(x) {
                        let j = choose|j: int| 0 <= j < t.len() && (#[trigger] t[j]).0 == x && collides(t[j], deleted);
                        if j < i {
                            assert(found@.take(i as int)[j] == t[j]);
                        }
                    }
                    if x == id && collides(found@[i as int], deleted) {
                        assert(t[i as int] == found@[i as int]);
                    }
                }
                assert(ids@ =~= spec_colliding(t, deleted));
            }
            i = i + 1;
        }
        proof {
            assert(found@.take(found@.len() as int) =~= found@);
        }
        self.record_conflict(ConflictKind::ConflictingFlowSteps, ids);
    }

    /// The outcome of a check: a conflict error when anything was recorded.
    pub fn check_result(&self) -> (r: Result<(), NodecosmosError>)
        ensures
            r is Err <==> self.branch.conflict is Some,
            r matches Err(e) ==> (e matches NodecosmosError::Conflict(m) && m@ == "Conflict detected"@),
    {
        if self.branch.conflict.is_some() {
            return Err(NodecosmosError::Conflict(text_from("Conflict detected")));
        }
        Ok(())
    }
}


/// A check that finds every candidate records nothing: recording an empty
/// set of ids leaves a branch without conflicts without conflicts, and any
/// non-empty set gives it a conflict record.
pub proof fn lemma_no_missing_no_conflict(kind: ConflictKind, ids: Set<u128>)
    ensures
        with_conflict(None, kind, ids) is None <==> ids.is_empty(),
{
}

/// The objects the check reports as deleted while edited are never objects
/// the branch itself created, deleted or restored: a node the branch
/// restored, in particular, no longer conflicts.
pub proof fn lemma_edited_conflicts_are_originals(
    edited: Set<u128>,
    created: Set<u128>,
    deleted: Set<u128>,
    restored: Set<u128>,
    found: Set<u128>,
)
    ensures
        (without_three(edited, created, deleted, restored) - found).disjoint(created),
        (without_three(edited, created, deleted, restored) - found).disjoint(deleted),
        (without_three(edited, created, deleted, restored) - found).disjoint(restored),
{
}

/// Flow steps the branch chose to keep despite a collision, and flow steps
/// of flows the branch created, are never reported as colliding.
pub proof fn lemma_kept_steps_never_collide(
    b: &Branch,
    fs: &MergeFlowSteps,
    found: Seq<(u128, Option<u128>)>,
    deleted_steps: Set<u128>,
)
    requires
        forall|j: int| 0 <= j < found.len() ==> spec_steps_to_check(b, fs).map_values(|f: FlowStep| f.id).contains(
            #[trigger] found[j].0,
        ),
    ensures
        spec_colliding(found, deleted_steps).disjoint(opt_set(b.kept_flow_steps)),
        forall|x: u128| #[trigger] spec_colliding(found, deleted_steps).contains(x) ==> exists|j: int|
            0 <= j < spec_steps_to_check(b, fs).len() && spec_steps_to_check(b, fs)[j].id == x
                && !opt_set(b.created_flows).contains(spec_steps_to_check(b, fs)[j].flow_id),
{
    let checked = spec_steps_to_check(b, fs);
    let keep = |f: FlowStep|
        !opt_set(b.created_flows).contains(f.flow_id) && !opt_set(b.kept_flow_steps).contains(f.id);
    let all = opt_steps(fs.created_flow_steps) + opt_steps(fs.restored_flow_steps);
    assert forall|x: u128| #[trigger] spec_colliding(found, deleted_steps).contains(x) implies exists|j: int|
        0 <= j < checked.len() && checked[j].id == x && !opt_set(b.created_flows).contains(checked[j].flow_id)
            && !opt_set(b.kept_flow_steps).contains(checked[j].id) by {
        let j = choose|j: int| 0 <= j < found.len() && (#[trigger] found[j]).0 == x && collides(found[j], deleted_steps);
        assert(checked.map_values(|f: FlowStep| f.id).contains(found[j].0));
        let ids = checked.map_values(|f: FlowStep| f.id);
        let t = choose|t: int| 0 <= t < ids.len() && #[trigger] ids[t] == found[j].0;
        assert(checked[t].id == x);
        all.lemma_filter_pred(keep, t);
    }
    assert forall|x: u128| #[trigger] spec_colliding(found, deleted_steps).contains(x) implies !opt_set(
        b.kept_flow_steps,
    ).contains(x) by {
        let t = choose|t: int| 0 <= t < checked.len() && checked[t].id == x && !opt_set(b.created_flows).contains(
            checked[t].flow_id,
        ) && !opt_set(b.kept_flow_steps).contains(checked[t].id);
    }
}


/// The flows whose existence the check looks up before a merge: every flow
/// whose description the branch edited, that holds a flow step the merge
/// creates or restores, that holds a step whose nodes or inputs the merge
/// adds to, or that holds an io the merge creates or restores, unless the
/// branch itself created, deleted or restored that flow; and no flow the
/// branch created, deleted or restored.
pub proof fn lemma_edited_flows_are_looked_up(
    b: &Branch,
    fs: &MergeFlowSteps,
    created_ios: Seq<IoRef>,
    restored_ios: Seq<IoRef>,
)
    ensures
        ({
            let own = |x: u128|
                opt_set(b.created_flows).contains(x) || opt_set(b.deleted_flows).contains(x) || opt_set(
                    b.restored_flows,
                ).contains(x);
            let looked_up = without_three(
                spec_edited_flows(b, fs, created_ios, restored_ios),
                opt_set(b.created_flows),
                opt_set(b.deleted_flows),
                opt_set(b.restored_flows),
            );
            &&& forall|x: u128| #[trigger] looked_up.contains(x) ==> !own(x)
            &&& forall|x: u128|
                opt_set(b.edited_description_flows).contains(x) && !own(x) ==> #[trigger] looked_up.contains(x)
            &&& forall|j: int|
                0 <= j < opt_steps(fs.created_flow_steps).len() && !own(opt_steps(fs.created_flow_steps)[j].flow_id)
                    ==> looked_up.contains(#[trigger] opt_steps(fs.created_flow_steps)[j].flow_id)
            &&& forall|j: int|
                0 <= j < opt_steps(fs.restored_flow_steps).len() && !own(opt_steps(fs.restored_flow_steps)[j].flow_id)
                    ==> looked_up.contains(#[trigger] opt_steps(fs.restored_flow_steps)[j].flow_id)
            &&& forall|k: u128|
                opt_map(fs.branched_created_fs_nodes_flow_steps).contains_key(k) && !own(
                    opt_map(fs.branched_created_fs_nodes_flow_steps)[k].flow_id,
                ) ==> looked_up.contains(#[trigger] opt_map(fs.branched_created_fs_nodes_flow_steps)[k].flow_id)
            &&& forall|k: u128|
                opt_map(fs.branched_created_fs_inputs_flow_steps).contains_key(k) && !own(
                    opt_map(fs.branched_created_fs_inputs_flow_steps)[k].flow_id,
                ) ==> looked_up.contains(#[trigger] opt_map(fs.branched_created_fs_inputs_flow_steps)[k].flow_id)
            &&& forall|j: int|
                0 <= j < created_ios.len() && created_ios[j].flow_id is Some && !own(created_ios[j].flow_id.unwrap())
                    ==> looked_up.contains(#[trigger] created_ios[j].flow_id.unwrap())
            &&& forall|j: int|
                0 <= j < restored_ios.len() && restored_ios[j].flow_id is Some && !own(restored_ios[j].flow_id.unwrap())
                    ==> looked_up.contains(#[trigger] restored_ios[j].flow_id.unwrap())
        }),
{
    let looked_up = without_three(
        spec_edited_flows(b, fs, created_ios, restored_ios),
        opt_set(b.created_flows),
        opt_set(b.deleted_flows),
        opt_set(b.restored_flows),
    );
    let cs = opt_steps(fs.created_flow_steps);
    let rs = opt_steps(fs.restored_flow_steps);
    assert forall|j: int| 0 <= j < cs.len() implies flow_ids_of(cs).contains(#[trigger] cs[j].flow_id) by {
        assert(cs.map_values(|f: FlowStep| f.flow_id)[j] == cs[j].flow_id);
    }
    assert forall|j: int| 0 <= j < rs.len() implies flow_ids_of(rs).contains(#[trigger] rs[j].flow_id) by {
        assert(rs.map_values(|f: FlowStep| f.flow_id)[j] == rs[j].flow_id);
    }
    let nm = opt_map(fs.branched_created_fs_nodes_flow_steps);
    let im = opt_map(fs.branched_created_fs_inputs_flow_steps);
    assert forall|k: u128| nm.contains_key(k) implies map_flow_ids(nm).contains(#[trigger] nm[k].flow_id) by {
        assert(nm.dom().contains(k));
    }
    assert forall|k: u128| im.contains_key(k) implies map_flow_ids(im).contains(#[trigger] im[k].flow_id) by {
        assert(im.dom().contains(k));
    }
    assert forall|j: int| 0 <= j < created_ios.len() && created_ios[j].flow_id is Some implies io_flow_ids(
        created_ios,
    ).contains(#[trigger] created_ios[j].flow_id.unwrap()) by {
        assert(created_ios.map_values(|io: IoRef| io.flow_id)[j] == Some(created_ios[j].flow_id.unwrap()));
    }
    assert forall|j: int| 0 <= j < restored_ios.len() && restored_ios[j].flow_id is Some implies io_flow_ids(
        restored_ios,
    ).contains(#[trigger] restored_ios[j].flow_id.unwrap()) by {
        assert(restored_ios.map_values(|io: IoRef| io.flow_id)[j] == Some(restored_ios[j].flow_id.unwrap()));
    }
}

} // verus!
