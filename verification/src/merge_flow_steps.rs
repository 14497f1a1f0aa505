//! Merging a branch's flow steps into the original: which steps are taken
//! over, and the nodes and inputs that each original step gains or loses.
//! What a merge adds or removes is recorded as a delta, so that undoing the
//! merge takes out exactly that and nothing that others changed meanwhile.
use std::collections::{HashMap, HashSet};
use crate::branch::Branch;
use crate::flow_step::{FlowStep, list_to_set, opt_lists, copy_list, same_identity, slice_to_list, lists_without};
use crate::ids::{opt_set, opt_map, opt_contains, map_keys, set_to_vec, lemma_take_one_more, lemma_restrict_insert};
use crate::merge_lists::{
    opt_merge_unique_seq, opt_list_map, opt_merge_unique_map, merge_unique_seq,
    seq_without, seq_within, opt_seq, list_without, list_within, list_map_view, lemma_seq_without_to_set,
    lemma_seq_within_to_set, lemma_merge_then_without, lemma_merge_unique_to_set,
};
use vstd::prelude::*;

verus! {

broadcast use vstd::std_specs::hash::group_hash_axioms;

/// The node ids of a branch's version of a step that the original step does
/// not hold, in the branch's order; an absent original list holds nothing.
pub open spec fn spec_added_nodes(branched: Option<Seq<u128>>, original: Option<Seq<u128>>) -> Seq<u128> {
    match branched {
        None => Seq::empty(),
        Some(b) => match original {
            None => b,
            Some(o) => seq_without(b, o.to_set()),
        },
    }
}

/// The node ids that the branch deleted from a step and that the original
/// step still holds.
pub open spec fn spec_removed_nodes(deleted: Set<u128>, original: Option<Seq<u128>>) -> Set<u128> {
    match original {
        None => Set::empty(),
        Some(o) => deleted.intersect(o.to_set()),
    }
}

/// Per node of a branch's version of a step: the input ids that the original
/// step does not hold for that node (all of them where it holds none).
pub open spec fn spec_added_inputs(
    branched: Option<Map<u128, Seq<u128>>>,
    original: Option<Map<u128, Seq<u128>>>,
) -> Map<u128, Seq<u128>> {
    match branched {
        None => Map::empty(),
        Some(b) => Map::new(
            |k: u128| b.contains_key(k),
            |k: u128|
                match original {
                    Some(o) => if o.contains_key(k) {
                        seq_without(b[k], o[k].to_set())
                    } else {
                        b[k]
                    },
                    None => b[k],
                },
        ),
    }
}

/// The inputs a step is created with on the branch, for one node; none where
/// the branch records none.
pub open spec fn created_inputs_of(created: Option<Map<u128, Set<u128>>>, node: u128) -> Set<u128> {
    match created {
        Some(c) => if c.contains_key(node) {
            c[node]
        } else {
            Set::empty()
        },
        None => Set::empty(),
    }
}

/// Per node that the original step holds inputs for: the input ids the branch
/// deleted that the original still holds, except those the branch also created.
pub open spec fn spec_removed_inputs(
    deleted: Map<u128, Set<u128>>,
    original: Option<Map<u128, Seq<u128>>>,
    created: Option<Map<u128, Set<u128>>>,
) -> Map<u128, Set<u128>> {
    Map::new(
        |k: u128| deleted.contains_key(k) && original is Some && original.unwrap().contains_key(k),
        |k: u128| deleted[k].intersect(original.unwrap()[k].to_set()) - created_inputs_of(created, k),
    )
}

/// A map of id sets viewed as a map of sets.
pub open spec fn set_map_of(m: Map<u128, HashSet<u128>>) -> Map<u128, Set<u128>> {
    m.map_values(|s: HashSet<u128>| s@)
}

/// The node ids a branch adds to a step (see `spec_added_nodes`).
pub fn added_nodes_delta(branched: &Option<Vec<u128>>, original: &Option<Vec<u128>>) -> (r: Vec<u128>)
    ensures
        r@ == spec_added_nodes(opt_seq(*branched), opt_seq(*original)),
{
    match branched {
        None => Vec::new(),
        Some(b) => match original {
            None => copy_list(b),
            Some(o) => list_without(b, o),
        },
    }
}

/// The node ids a branch removes from a step (see `spec_removed_nodes`), each once.
pub fn removed_nodes_delta(deleted: &HashSet<u128>, original: &Option<Vec<u128>>) -> (r: Vec<u128>)
    ensures
        r@.to_set() == spec_removed_nodes(deleted@, opt_seq(*original)),
        r@.no_duplicates(),
{
    match original {
        None => {
            proof {
                assert(Seq::<u128>::empty().to_set() =~= Set::<u128>::empty());
            }
            Vec::new()
        },
        Some(o) => {
            let ids = set_to_vec(deleted);
            let held = list_to_set(o);
            let r = list_within(&ids, &held);
            proof {
                lemma_seq_within_to_set(ids@, held@);
                lemma_seq_within_no_duplicates(ids@, held@);
                assert(r@.to_set() =~= spec_removed_nodes(deleted@, opt_seq(*original)));
            }
            r
        },
    }
}

/// Keeping some ids of a list without repeats gives a list without repeats.
pub proof fn lemma_seq_within_no_duplicates(s: Seq<u128>, ids: Set<u128>)
    requires
        s.no_duplicates(),
    ensures
        seq_within(s, ids).no_duplicates(),
        seq_within(s, ids).to_set().subset_of(s.to_set()),
    decreases s.len(),
{
    if s.len() > 0 {
        lemma_seq_within_no_duplicates(s.drop_last(), ids);
        lemma_seq_within_to_set(s.drop_last(), ids);
        let r = seq_within(s.drop_last(), ids);
        r.lemma_push_to_set_commute(s.last());
        s.drop_last().lemma_push_to_set_commute(s.last());
        assert(s.drop_last().push(s.last()) =~= s);
        assert(!s.drop_last().contains(s.last()));
        if ids.contains(s.last()) {
            assert(!r.to_set().contains(s.last()));
            assert(!r.contains(s.last()));
        }
    }
}


/// A map of id lists viewed as a map of id sets.
pub open spec fn list_sets(m: Map<u128, Vec<u128>>) -> Map<u128, Set<u128>> {
    m.map_values(|v: Vec<u128>| v@.to_set())
}

/// The view of an optional map of id sets.
pub open spec fn opt_set_map(o: Option<HashMap<u128, HashSet<u128>>>) -> Option<Map<u128, Set<u128>>> {
    match o {
        Some(m) => Some(set_map_of(m@)),
        None => None,
    }
}

/// The inputs a branch adds to a step, node by node (see `spec_added_inputs`).
pub fn added_inputs_delta(
    branched: &Option<HashMap<u128, Vec<u128>>>,
    original: &Option<HashMap<u128, Vec<u128>>>,
) -> (r: HashMap<u128, Vec<u128>>)
    ensures
        list_map_view(r@) == spec_added_inputs(opt_list_map(*branched), opt_list_map(*original)),
{
    let mut r: HashMap<u128, Vec<u128>> = HashMap::new();
    match branched {
        None => {
            proof {
                assert(list_map_view(r@) =~= Map::<u128, Seq<u128>>::empty());
            }
            r
        },
        Some(b) => {
            let keys = map_keys(b);
            let ghost target = spec_added_inputs(opt_list_map(*branched), opt_list_map(*original));
            let mut i: usize = 0;
            while i < keys.len()
                invariant
                    i <= keys.len(),
                    keys@.to_set() == b@.dom(),
                    keys@.no_duplicates(),
                    *branched == Some(*b),
                    target == spec_added_inputs(opt_list_map(*branched), opt_list_map(*original)),
                    list_map_view(r@) == target.restrict(keys@.take(i as int).to_set()),
                decreases keys.len() - i,
            {
                let k = keys[i];
                proof {
                    lemma_take_one_more(keys@, i as int);
                    lemma_restrict_insert(target, keys@.take(i as int).to_set(), k);
                }
                let ghost before = r@;
                let ids = b.get(&k).unwrap();
                let delta = match original {
                    Some(o) => match o.get(&k) {
                        Some(held) => list_without(ids, held),
                        None => copy_list(ids),
                    },
                    None => copy_list(ids),
                };
                r.insert(k, delta);
                proof {
                    assert(list_map_view(r@) =~= list_map_view(before).insert(k, target[k]));
                }
                i = i + 1;
            }
            proof {
                assert(keys@.take(keys@.len() as int) =~= keys@);
                assert(target.restrict(keys@.to_set()) =~= target);
            }
            r
        },
    }
}

/// The inputs a branch removes from a step, node by node (see
/// `spec_removed_inputs`); each list holds its ids once.
pub fn removed_inputs_delta(
    deleted: &HashMap<u128, HashSet<u128>>,
    original: &Option<HashMap<u128, Vec<u128>>>,
    created: &Option<HashMap<u128, HashSet<u128>>>,
) -> (r: HashMap<u128, Vec<u128>>)
    ensures
        list_sets(r@) == spec_removed_inputs(set_map_of(deleted@), opt_list_map(*original), opt_set_map(*created)),
        forall|k: u128| #[trigger] r@.contains_key(k) ==> r@[k]@.no_duplicates(),
{
    let mut r: HashMap<u128, Vec<u128>> = HashMap::new();
    let keys = map_keys(deleted);
    let ghost target = spec_removed_inputs(set_map_of(deleted@), opt_list_map(*original), opt_set_map(*created));
    let mut i: usize = 0;
    while i < keys.len()
        invariant
            i <= keys.len(),
            keys@.to_set() == deleted@.dom(),
            keys@.no_duplicates(),
            target == spec_removed_inputs(set_map_of(deleted@), opt_list_map(*original), opt_set_map(*created)),
            list_sets(r@) == target.restrict(keys@.take(i as int).to_set()),
            forall|k: u128| #[trigger] r@.contains_key(k) ==> r@[k]@.no_duplicates(),
        decreases keys.len() - i,
    {
        let k = keys[i];
        proof {
            lemma_take_one_more(keys@, i as int);
            lemma_restrict_insert(target, keys@.take(i as int).to_set(), k);
        }
        let ghost before = r@;
        let removed = deleted.get(&k).unwrap();
        if let Some(o) = original {
            if let Some(held_list) = o.get(&k) {
                let held = list_to_set(held_list);
                let candidates = set_to_vec(removed);
                let within = list_within(&candidates, &held);
                let ghost made_set = created_inputs_of(opt_set_map(*created), k);
                proof {
                    lemma_seq_within_to_set(candidates@, held@);
                    lemma_seq_within_no_duplicates(candidates@, held@);
                    lemma_seq_without_to_set(within@, made_set);
                }
                let kept = match created {
                    Some(c) => match c.get(&k) {
                        Some(made) => {
                            let made_list = set_to_vec(made);
                            proof {
                                assert(made_list@.to_set() == made_set);
                            }
                            list_without(&within, &made_list)
                        },
                        None => {
                            proof {
                                assert(made_set =~= Set::<u128>::empty());
                                crate::merge_lists::lemma_seq_without_disjoint(within@, made_set);
                            }
                            within
                        },
                    },
                    None => {
                        proof {
                            assert(made_set =~= Set::<u128>::empty());
                            crate::merge_lists::lemma_seq_without_disjoint(within@, made_set);
                        }
                        within
                    },
                };
                proof {
                    assert(kept@ == seq_without(within@, made_set));
                    assert(kept@.to_set() =~= target[k]);
                }
                r.insert(k, kept);
                proof {
                    assert(list_sets(r@) =~= list_sets(before).insert(k, target[k]));
                }
            } else {
                proof {
                    assert(!target.contains_key(k));
                }
            }
        } else {
            proof {
                assert(!target.contains_key(k));
            }
        }
        i = i + 1;
    }
    proof {
        assert(keys@.take(keys@.len() as int) =~= keys@);
        assert(target.restrict(keys@.to_set()) =~= target);
    }
    r
}


/// The node ids that merging adds to an original step: those of the
/// branch's version of it that the original lacks.
pub open spec fn nodes_added_for(fs: FlowStep, branched: Map<u128, FlowStep>) -> Seq<u128> {
    if branched.contains_key(fs.id) {
        spec_added_nodes(opt_seq(branched[fs.id].node_ids), opt_seq(fs.node_ids))
    } else {
        Seq::empty()
    }
}

/// The node ids that merging takes out of an original step: those the branch
/// deleted from it that it still holds.
pub open spec fn nodes_removed_for(fs: FlowStep, deleted: Map<u128, HashSet<u128>>) -> Set<u128> {
    if deleted.contains_key(fs.id) {
        spec_removed_nodes(deleted[fs.id]@, opt_seq(fs.node_ids))
    } else {
        Set::empty()
    }
}

/// An optional map, taken as empty when absent.
pub open spec fn or_empty<V>(m: Option<Map<u128, V>>) -> Map<u128, V> {
    match m {
        Some(m) => m,
        None => Map::empty(),
    }
}

/// The deltas recorded for a list of steps, one after another: a step with a
/// delta records it under its id, and one without leaves the record as it is.
pub open spec fn fold_added_nodes(
    start: Option<Map<u128, Seq<u128>>>,
    steps: Seq<FlowStep>,
    branched: Map<u128, FlowStep>,
) -> Option<Map<u128, Seq<u128>>>
    decreases steps.len(),
{
    if steps.len() == 0 {
        start
    } else {
        let r = fold_added_nodes(start, steps.drop_last(), branched);
        let d = nodes_added_for(steps.last(), branched);
        if d.len() > 0 {
            Some(or_empty(r).insert(steps.last().id, d))
        } else {
            r
        }
    }
}

/// A step after merging in the nodes of its branch's version.
pub open spec fn after_adding_nodes(o: FlowStep, n: FlowStep, branched: Map<u128, FlowStep>) -> bool {
    let d = nodes_added_for(o, branched);
    &&& same_identity(n, o)
    &&& n.input_ids_by_node_id == o.input_ids_by_node_id
    &&& n.output_ids_by_node_id == o.output_ids_by_node_id
    &&& opt_seq(n.node_ids) == if d.len() > 0 {
        opt_merge_unique_seq(opt_seq(o.node_ids), Some(d))
    } else {
        opt_seq(o.node_ids)
    }
}


/// A step after the nodes recorded for it were taken out again.
pub open spec fn after_taking_out_nodes(o: FlowStep, n: FlowStep, recorded: Map<u128, Seq<u128>>) -> bool {
    &&& same_identity(n, o)
    &&& n.input_ids_by_node_id == o.input_ids_by_node_id
    &&& n.output_ids_by_node_id == o.output_ids_by_node_id
    &&& opt_seq(n.node_ids) == if recorded.contains_key(o.id) {
        match opt_seq(o.node_ids) {
            Some(s) => Some(seq_without(s, recorded[o.id].to_set())),
            None => None,
        }
    } else {
        opt_seq(o.node_ids)
    }
}

/// A step after the nodes recorded for it were put back.
pub open spec fn after_putting_back_nodes(o: FlowStep, n: FlowStep, recorded: Map<u128, Seq<u128>>) -> bool {
    &&& same_identity(n, o)
    &&& n.input_ids_by_node_id == o.input_ids_by_node_id
    &&& n.output_ids_by_node_id == o.output_ids_by_node_id
    &&& opt_seq(n.node_ids) == if recorded.contains_key(o.id) {
        opt_merge_unique_seq(opt_seq(o.node_ids), Some(recorded[o.id]))
    } else {
        opt_seq(o.node_ids)
    }
}

/// A step after taking out the nodes the branch deleted from it.
pub open spec fn after_removing_nodes(o: FlowStep, n: FlowStep, deleted: Map<u128, HashSet<u128>>) -> bool {
    let d = nodes_removed_for(o, deleted);
    &&& same_identity(n, o)
    &&& n.input_ids_by_node_id == o.input_ids_by_node_id
    &&& n.output_ids_by_node_id == o.output_ids_by_node_id
    &&& opt_seq(n.node_ids) == if !d.is_empty() {
        match opt_seq(o.node_ids) {
            Some(s) => Some(seq_without(s, d)),
            None => None,
        }
    } else {
        opt_seq(o.node_ids)
    }
}

/// The removal deltas recorded for a list of steps, as sets, one step after another.
pub open spec fn fold_removed_nodes(
    start: Option<Map<u128, Set<u128>>>,
    steps: Seq<FlowStep>,
    deleted: Map<u128, HashSet<u128>>,
) -> Option<Map<u128, Set<u128>>>
    decreases steps.len(),
{
    if steps.len() == 0 {
        start
    } else {
        let r = fold_removed_nodes(start, steps.drop_last(), deleted);
        let d = nodes_removed_for(steps.last(), deleted);
        if !d.is_empty() {
            Some(or_empty(r).insert(steps.last().id, d))
        } else {
            r
        }
    }
}

/// The view of an optional map of id lists as sets.
pub open spec fn opt_list_sets(o: Option<HashMap<u128, Vec<u128>>>) -> Option<Map<u128, Set<u128>>> {
    match o {
        Some(m) => Some(list_sets(m@)),
        None => None,
    }
}


/// `m` with, under each key of `ids`, the ids of that set taken out.
pub open spec fn lists_minus(m: Map<u128, Seq<u128>>, ids: Map<u128, Set<u128>>) -> Map<u128, Seq<u128>> {
    Map::new(
        |k: u128| m.contains_key(k),
        |k: u128|
            if ids.contains_key(k) {
                seq_without(m[k], ids[k])
            } else {
                m[k]
            },
    )
}

/// The inputs that merging adds to an original step, node by node.
pub open spec fn inputs_added_for(fs: FlowStep, branched: Map<u128, FlowStep>) -> Map<u128, Seq<u128>> {
    if branched.contains_key(fs.id) {
        spec_added_inputs(opt_list_map(branched[fs.id].input_ids_by_node_id), opt_list_map(fs.input_ids_by_node_id))
    } else {
        Map::empty()
    }
}

/// The inputs that merging takes out of an original step, node by node.
pub open spec fn inputs_removed_for(
    fs: FlowStep,
    deleted: Map<u128, HashMap<u128, HashSet<u128>>>,
    created: Map<u128, HashMap<u128, HashSet<u128>>>,
) -> Map<u128, Set<u128>> {
    if deleted.contains_key(fs.id) {
        spec_removed_inputs(
            set_map_of(deleted[fs.id]@),
            opt_list_map(fs.input_ids_by_node_id),
            if created.contains_key(fs.id) {
                Some(set_map_of(created[fs.id]@))
            } else {
                None
            },
        )
    } else {
        Map::empty()
    }
}

/// A step after merging in the inputs of its branch's version.
pub open spec fn after_adding_inputs(o: FlowStep, n: FlowStep, branched: Map<u128, FlowStep>) -> bool {
    let d = inputs_added_for(o, branched);
    &&& same_identity(n, o)
    &&& n.node_ids == o.node_ids
    &&& n.output_ids_by_node_id == o.output_ids_by_node_id
    &&& opt_list_map(n.input_ids_by_node_id) == if !d.dom().is_empty() {
        opt_merge_unique_map(opt_list_map(o.input_ids_by_node_id), Some(d))
    } else {
        opt_list_map(o.input_ids_by_node_id)
    }
}

/// A step after taking out the inputs the branch deleted from it.
pub open spec fn after_removing_inputs(
    o: FlowStep,
    n: FlowStep,
    deleted: Map<u128, HashMap<u128, HashSet<u128>>>,
    created: Map<u128, HashMap<u128, HashSet<u128>>>,
) -> bool {
    let d = inputs_removed_for(o, deleted, created);
    &&& same_identity(n, o)
    &&& n.node_ids == o.node_ids
    &&& n.output_ids_by_node_id == o.output_ids_by_node_id
    &&& opt_list_map(n.input_ids_by_node_id) == if !d.dom().is_empty() {
        match opt_list_map(o.input_ids_by_node_id) {
            Some(m) => Some(lists_minus(m, d)),
            None => None,
        }
    } else {
        opt_list_map(o.input_ids_by_node_id)
    }
}

/// A step after the inputs recorded for it were taken out again.
pub open spec fn after_taking_out_inputs(o: FlowStep, n: FlowStep, recorded: Map<u128, Map<u128, Seq<u128>>>) -> bool {
    &&& same_identity(n, o)
    &&& n.node_ids == o.node_ids
    &&& n.output_ids_by_node_id == o.output_ids_by_node_id
    &&& opt_list_map(n.input_ids_by_node_id) == if recorded.contains_key(o.id) {
        match opt_list_map(o.input_ids_by_node_id) {
            Some(m) => Some(lists_without(m, recorded[o.id])),
            None => None,
        }
    } else {
        opt_list_map(o.input_ids_by_node_id)
    }
}

/// A step after the inputs recorded for it were put back.
pub open spec fn after_putting_back_inputs(o: FlowStep, n: FlowStep, recorded: Map<u128, Map<u128, Seq<u128>>>) -> bool {
    &&& same_identity(n, o)
    &&& n.node_ids == o.node_ids
    &&& n.output_ids_by_node_id == o.output_ids_by_node_id
    &&& opt_list_map(n.input_ids_by_node_id) == if recorded.contains_key(o.id) {
        opt_merge_unique_map(opt_list_map(o.input_ids_by_node_id), Some(recorded[o.id]))
    } else {
        opt_list_map(o.input_ids_by_node_id)
    }
}

/// The input deltas added, recorded one step after another.
pub open spec fn fold_added_inputs(
    start: Option<Map<u128, Map<u128, Seq<u128>>>>,
    steps: Seq<FlowStep>,
    branched: Map<u128, FlowStep>,
) -> Option<Map<u128, Map<u128, Seq<u128>>>>
    decreases steps.len(),
{
    if steps.len() == 0 {
        start
    } else {
        let r = fold_added_inputs(start, steps.drop_last(), branched);
        let d = inputs_added_for(steps.last(), branched);
        if !d.dom().is_empty() {
            Some(or_empty(r).insert(steps.last().id, d))
        } else {
            r
        }
    }
}

/// The input deltas taken out, as sets, recorded one step after another.
pub open spec fn fold_removed_inputs(
    start: Option<Map<u128, Map<u128, Set<u128>>>>,
    steps: Seq<FlowStep>,
    deleted: Map<u128, HashMap<u128, HashSet<u128>>>,
    created: Map<u128, HashMap<u128, HashSet<u128>>>,
) -> Option<Map<u128, Map<u128, Set<u128>>>>
    decreases steps.len(),
{
    if steps.len() == 0 {
        start
    } else {
        let r = fold_removed_inputs(start, steps.drop_last(), deleted, created);
        let d = inputs_removed_for(steps.last(), deleted, created);
        if !d.dom().is_empty() {
            Some(or_empty(r).insert(steps.last().id, d))
        } else {
            r
        }
    }
}

/// The view of an optional map of input deltas.
pub open spec fn opt_delta_lists(o: Option<HashMap<u128, HashMap<u128, Vec<u128>>>>) -> Option<Map<u128, Map<u128, Seq<u128>>>> {
    match o {
        Some(m) => Some(m@.map_values(|d: HashMap<u128, Vec<u128>>| list_map_view(d@))),
        None => None,
    }
}

/// The view of an optional map of input deltas, as sets.
pub open spec fn opt_delta_sets(o: Option<HashMap<u128, HashMap<u128, Vec<u128>>>>) -> Option<Map<u128, Map<u128, Set<u128>>>> {
    match o {
        Some(m) => Some(m@.map_values(|d: HashMap<u128, Vec<u128>>| list_sets(d@))),
        None => None,
    }
}

/// Taking out lists of ids is taking out the sets they hold.
pub proof fn lemma_lists_without_sets(m: Map<u128, Seq<u128>>, ids: Map<u128, Vec<u128>>)
    ensures
        lists_without(m, list_map_view(ids)) == lists_minus(m, list_sets(ids)),
{
    assert(lists_without(m, list_map_view(ids)) =~= lists_minus(m, list_sets(ids)));
}

/// Records a delta under a step's id, creating the record if absent.
pub fn record_delta<V>(m: &mut Option<HashMap<u128, V>>, id: u128, delta: V)
    ensures
        *final(m) == Some(final(m).unwrap()),
        final(m).unwrap()@ == opt_map(*old(m)).insert(id, delta),
{
    let mut target = match m.take() {
        Some(t) => t,
        None => HashMap::new(),
    };
    target.insert(id, delta);
    *m = Some(target);
}

impl FlowStep {
    /// Adds to this original step the nodes its branch's version has and it
    /// lacks; gives back what it added.
    pub fn merge_branched_nodes(&mut self, branched: &Option<HashMap<u128, FlowStep>>) -> (d: Vec<u128>)
        ensures
            d@ == nodes_added_for(*old(self), opt_map(*branched)),
            after_adding_nodes(*old(self), *final(self), opt_map(*branched)),
    {
        let d = match branched {
            Some(m) => match m.get(&self.id) {
                Some(b) => added_nodes_delta(&b.node_ids, &self.node_ids),
                None => Vec::new(),
            },
            None => Vec::new(),
        };
        if d.len() > 0 {
            self.append_nodes(d.as_slice());
        }
        d
    }

    /// Adds to this original step the inputs its branch's version has and it
    /// lacks, node by node; gives back what it added.
    pub fn merge_branched_inputs(&mut self, branched: &Option<HashMap<u128, FlowStep>>) -> (d: HashMap<u128, Vec<u128>>)
        ensures
            list_map_view(d@) == inputs_added_for(*old(self), opt_map(*branched)),
            after_adding_inputs(*old(self), *final(self), opt_map(*branched)),
    {
        let d = match branched {
            Some(m) => match m.get(&self.id) {
                Some(b) => added_inputs_delta(&b.input_ids_by_node_id, &self.input_ids_by_node_id),
                None => {
                    let e: HashMap<u128, Vec<u128>> = HashMap::new();
                    proof {
                        assert(list_map_view(e@) =~= Map::<u128, Seq<u128>>::empty());
                    }
                    e
                },
            },
            None => {
                let e: HashMap<u128, Vec<u128>> = HashMap::new();
                proof {
                    assert(list_map_view(e@) =~= Map::<u128, Seq<u128>>::empty());
                }
                e
            },
        };
        proof {
            assert(list_map_view(d@).dom() == d@.dom());
        }
        if d.len() > 0 {
            proof {
                assert(d@.dom().len() > 0);
                assert(!d@.dom().is_empty());
            }
            self.append_inputs(&d);
        } else {
            proof {
                assert(d@.dom() =~= Set::<u128>::empty());
            }
        }
        d
    }

    /// Takes out of this original step the inputs the branch deleted from it
    /// that it still holds, except those the branch also created; gives back
    /// what it took out.
    pub fn remove_branch_deleted_inputs(
        &mut self,
        deleted: &HashMap<u128, HashMap<u128, HashSet<u128>>>,
        created: &Option<HashMap<u128, HashMap<u128, HashSet<u128>>>>,
    ) -> (d: HashMap<u128, Vec<u128>>)
        ensures
            list_sets(d@) == inputs_removed_for(*old(self), deleted@, opt_map(*created)),
            after_removing_inputs(*old(self), *final(self), deleted@, opt_map(*created)),
    {
        let d = match deleted.get(&self.id) {
            Some(by_node) => {
                let made: Option<HashMap<u128, HashSet<u128>>> = match created {
                    Some(c) => match c.get(&self.id) {
                        Some(m) => Some(m.clone()),
                        None => None,
                    },
                    None => None,
                };
                proof {
                    assert(opt_set_map(made) == if opt_map(*created).contains_key(self.id) {
                        Some(set_map_of(opt_map(*created)[self.id]@))
                    } else {
                        None::<Map<u128, Set<u128>>>
                    });
                }
                removed_inputs_delta(by_node, &self.input_ids_by_node_id, &made)
            },
            None => {
                let e: HashMap<u128, Vec<u128>> = HashMap::new();
                proof {
                    assert(list_sets(e@) =~= Map::<u128, Set<u128>>::empty());
                }
                e
            },
        };
        proof {
            assert(list_sets(d@).dom() == d@.dom());
        }
        if d.len() > 0 {
            proof {
                assert(d@.dom().len() > 0);
                assert(!d@.dom().is_empty());
                if let Some(m) = opt_list_map(self.input_ids_by_node_id) {
                    lemma_lists_without_sets(m, d@);
                }
            }
            self.remove_inputs(&d);
        } else {
            proof {
                assert(d@.dom() =~= Set::<u128>::empty());
            }
        }
        d
    }

    /// Takes out of this original step the nodes the branch deleted from it
    /// that it still holds; gives back what it took out.
    pub fn remove_branch_deleted_nodes(&mut self, deleted: &HashMap<u128, HashSet<u128>>) -> (d: Vec<u128>)
        ensures
            d@.to_set() == nodes_removed_for(*old(self), deleted@),
            d@.no_duplicates(),
            same_identity(*final(self), *old(self)),
            final(self).input_ids_by_node_id == old(self).input_ids_by_node_id,
            final(self).output_ids_by_node_id == old(self).output_ids_by_node_id,
            opt_seq(final(self).node_ids) == if d@.len() > 0 {
                match opt_seq(old(self).node_ids) {
                    Some(s) => Some(seq_without(s, d@.to_set())),
                    None => None,
                }
            } else {
                opt_seq(old(self).node_ids)
            },
    {
        let d = match deleted.get(&self.id) {
            Some(ids) => removed_nodes_delta(ids, &self.node_ids),
            None => {
                proof {
                    assert(Seq::<u128>::empty().to_set() =~= Set::<u128>::empty());
                }
                Vec::new()
            },
        };
        if d.len() > 0 {
            self.remove_nodes(d.as_slice());
        }
        d
    }
}

/// What the merge of a branch's flow steps works on: the records loaded for
/// each kind of change, and the deltas it applied to original steps.
pub struct MergeFlowSteps {
    pub restored_flow_steps: Option<Vec<FlowStep>>,
    pub created_flow_steps: Option<Vec<FlowStep>>,
    pub deleted_flow_steps: Option<Vec<FlowStep>>,
    pub created_fs_nodes_flow_steps: Option<Vec<FlowStep>>,
    pub branched_created_fs_nodes_flow_steps: Option<HashMap<u128, FlowStep>>,
    pub deleted_fs_nodes_flow_steps: Option<Vec<FlowStep>>,
    pub created_fs_inputs_flow_steps: Option<Vec<FlowStep>>,
    pub branched_created_fs_inputs_flow_steps: Option<HashMap<u128, FlowStep>>,
    pub deleted_fs_inputs_flow_steps: Option<Vec<FlowStep>>,
    pub added_node_ids_by_flow_step: Option<HashMap<u128, Vec<u128>>>,
    pub removed_node_ids_by_flow_step: Option<HashMap<u128, Vec<u128>>>,
    pub added_input_ids_by_flow_step: Option<HashMap<u128, HashMap<u128, Vec<u128>>>>,
    pub removed_input_ids_by_flow_step: Option<HashMap<u128, HashMap<u128, Vec<u128>>>>,
    pub added_output_ids_by_flow_step: Option<HashMap<u128, HashMap<u128, Vec<u128>>>>,
    pub removed_output_ids_by_flow_step: Option<HashMap<u128, HashMap<u128, Vec<u128>>>>,
}

/// An optional list of steps as a sequence; absent is empty.
pub open spec fn opt_steps(o: Option<Vec<FlowStep>>) -> Seq<FlowStep> {
    match o {
        Some(v) => v@,
        None => Seq::empty(),
    }
}

impl MergeFlowSteps {
    /// Adds to each original step whose nodes the branch added to the nodes
    /// its branch's version has and it lacks, and records what was added per
    /// step. Gives back the ids of the steps changed, to be saved.
    pub fn create_flow_step_nodes(&mut self) -> (changed: Vec<u128>)
        ensures
            final(self).created_fs_nodes_flow_steps is Some <==> old(self).created_fs_nodes_flow_steps is Some,
            opt_steps(final(self).created_fs_nodes_flow_steps).len() == opt_steps(old(self).created_fs_nodes_flow_steps).len(),
            forall|j: int| 0 <= j < opt_steps(old(self).created_fs_nodes_flow_steps).len() ==> after_adding_nodes(
                #[trigger] opt_steps(old(self).created_fs_nodes_flow_steps)[j],
                opt_steps(final(self).created_fs_nodes_flow_steps)[j],
                opt_map(old(self).branched_created_fs_nodes_flow_steps),
            ),
            opt_list_map(final(self).added_node_ids_by_flow_step) == fold_added_nodes(
                opt_list_map(old(self).added_node_ids_by_flow_step),
                opt_steps(old(self).created_fs_nodes_flow_steps),
                opt_map(old(self).branched_created_fs_nodes_flow_steps),
            ),
            final(self).branched_created_fs_nodes_flow_steps == old(self).branched_created_fs_nodes_flow_steps,
            final(self).deleted_fs_nodes_flow_steps == old(self).deleted_fs_nodes_flow_steps,
            final(self).removed_node_ids_by_flow_step == old(self).removed_node_ids_by_flow_step,
            final(self).created_fs_inputs_flow_steps == old(self).created_fs_inputs_flow_steps,
            final(self).deleted_fs_inputs_flow_steps == old(self).deleted_fs_inputs_flow_steps,
            final(self).added_input_ids_by_flow_step == old(self).added_input_ids_by_flow_step,
            final(self).removed_input_ids_by_flow_step == old(self).removed_input_ids_by_flow_step,
            forall|x: u128| #[trigger] changed@.contains(x) ==> exists|j: int|
                0 <= j < opt_steps(old(self).created_fs_nodes_flow_steps).len()
                && opt_steps(old(self).created_fs_nodes_flow_steps)[j].id == x,
    {
        let mut steps = match self.created_fs_nodes_flow_steps.take() {
            Some(v) => v,
            None => {
                return Vec::new();
            },
        };
        let ghost pre = *self;
        let ghost all = steps@;
        let ghost branched = opt_map(self.branched_created_fs_nodes_flow_steps);
        let ghost start = opt_list_map(self.added_node_ids_by_flow_step);
        let mut out: Vec<FlowStep> = Vec::new();
        let mut changed: Vec<u128> = Vec::new();
        while steps.len() > 0
            invariant
                out@.len() + steps@.len() == all.len(),
                steps@ == all.subrange(out@.len() as int, all.len() as int),
                branched == opt_map(self.branched_created_fs_nodes_flow_steps),
                self.branched_created_fs_nodes_flow_steps == pre.branched_created_fs_nodes_flow_steps,
                self.deleted_fs_nodes_flow_steps == pre.deleted_fs_nodes_flow_steps,
                self.removed_node_ids_by_flow_step == pre.removed_node_ids_by_flow_step,
                self.created_fs_inputs_flow_steps == pre.created_fs_inputs_flow_steps,
                self.deleted_fs_inputs_flow_steps == pre.deleted_fs_inputs_flow_steps,
                self.added_input_ids_by_flow_step == pre.added_input_ids_by_flow_step,
                self.removed_input_ids_by_flow_step == pre.removed_input_ids_by_flow_step,
                forall|j: int| 0 <= j < out@.len() ==> after_adding_nodes(#[trigger] all[j], out@[j], branched),
                opt_list_map(self.added_node_ids_by_flow_step) == fold_added_nodes(
                    start,
                    all.take(out@.len() as int),
                    branched,
                ),
                forall|x: u128| #[trigger] changed@.contains(x) ==> exists|j: int| 0 <= j < all.len() && all[j].id == x,
            decreases steps@.len(),
        {
            let k = out.len();
            let mut fs = steps.remove(0);
            proof {
                assert(fs == all[k as int]);
                assert(all.take(k as int + 1).drop_last() =~= all.take(k as int));
                assert(all.take(k as int + 1).last() == all[k as int]);
            }
            let d = fs.merge_branched_nodes(&self.branched_created_fs_nodes_flow_steps);
            if d.len() > 0 {
                let ghost before = opt_list_map(self.added_node_ids_by_flow_step);
                let id = fs.id;
                record_delta(&mut self.added_node_ids_by_flow_step, id, d);
                proof {
                    assert(list_map_view(self.added_node_ids_by_flow_step.unwrap()@) =~= or_empty(before).insert(
                        id,
                        nodes_added_for(all[k as int], branched),
                    ));
                }
                let ghost old_changed = changed@;
                changed.push(id);
                proof {
                    assert forall|x: u128| #[trigger] changed@.contains(x) implies exists|j: int|
                        0 <= j < all.len() && all[j].id == x by {
                        if x == id {
                            assert(all[k as int].id == x);
                        } else {
                            assert(old_changed.contains(x));
                        }
                    }
                }
            }
            out.push(fs);
            proof {
                assert(steps@ =~= all.subrange(out@.len() as int, all.len() as int));
            }
        }
        proof {
            assert(all.take(all.len() as int) =~= all);
        }
        self.created_fs_nodes_flow_steps = Some(out);
        changed
    }

    /// Takes back out of each original step the nodes recorded as added to
    /// it. Gives back the ids of the steps changed, to be saved.
    pub fn undo_create_flow_step_nodes(&mut self) -> (changed: Vec<u128>)
        ensures
            final(self).created_fs_nodes_flow_steps is Some <==> old(self).created_fs_nodes_flow_steps is Some,
            opt_steps(final(self).created_fs_nodes_flow_steps).len() == opt_steps(old(self).created_fs_nodes_flow_steps).len(),
            forall|j: int| 0 <= j < opt_steps(old(self).created_fs_nodes_flow_steps).len() ==> after_taking_out_nodes(
                #[trigger] opt_steps(old(self).created_fs_nodes_flow_steps)[j],
                opt_steps(final(self).created_fs_nodes_flow_steps)[j],
                or_empty(opt_list_map(old(self).added_node_ids_by_flow_step)),
            ),
            final(self).added_node_ids_by_flow_step == old(self).added_node_ids_by_flow_step,
            final(self).deleted_fs_nodes_flow_steps == old(self).deleted_fs_nodes_flow_steps,
            final(self).removed_node_ids_by_flow_step == old(self).removed_node_ids_by_flow_step,
    {
        let mut steps = match self.created_fs_nodes_flow_steps.take() {
            Some(v) => v,
            None => {
                return Vec::new();
            },
        };
        let ghost pre = *self;
        let ghost all = steps@;
        let ghost recorded = or_empty(opt_list_map(self.added_node_ids_by_flow_step));
        let mut out: Vec<FlowStep> = Vec::new();
        let mut changed: Vec<u128> = Vec::new();
        while steps.len() > 0
            invariant
                out@.len() + steps@.len() == all.len(),
                steps@ == all.subrange(out@.len() as int, all.len() as int),
                recorded == or_empty(opt_list_map(self.added_node_ids_by_flow_step)),
                self.added_node_ids_by_flow_step == pre.added_node_ids_by_flow_step,
                self.deleted_fs_nodes_flow_steps == pre.deleted_fs_nodes_flow_steps,
                self.removed_node_ids_by_flow_step == pre.removed_node_ids_by_flow_step,
                forall|j: int| 0 <= j < out@.len() ==> after_taking_out_nodes(#[trigger] all[j], out@[j], recorded),
            decreases steps@.len(),
        {
            let k = out.len();
            let mut fs = steps.remove(0);
            proof {
                assert(fs == all[k as int]);
            }
            let found = match &self.added_node_ids_by_flow_step {
                Some(m) => m.get(&fs.id),
                None => None,
            };
            if let Some(ids) = found {
                fs.remove_nodes(ids.as_slice());
                changed.push(fs.id);
            }
            out.push(fs);
            proof {
                assert(steps@ =~= all.subrange(out@.len() as int, all.len() as int));
            }
        }
        self.created_fs_nodes_flow_steps = Some(out);
        changed
    }

    /// Takes out of each original step the nodes the branch deleted from it
    /// and that it still holds, and records what was taken out per step.
    /// Gives back the ids of the steps changed, to be saved. Steps that the
    /// branch also added nodes to are to be read anew first (see
    /// `steps_to_reload_for_nodes`).
    pub fn delete_flow_step_nodes(&mut self, branch: &Branch) -> (changed: Vec<u128>)
        ensures
            final(self).deleted_fs_nodes_flow_steps is Some <==> old(self).deleted_fs_nodes_flow_steps is Some,
            opt_steps(final(self).deleted_fs_nodes_flow_steps).len() == opt_steps(old(self).deleted_fs_nodes_flow_steps).len(),
            forall|j: int| 0 <= j < opt_steps(old(self).deleted_fs_nodes_flow_steps).len() ==> after_removing_nodes(
                #[trigger] opt_steps(old(self).deleted_fs_nodes_flow_steps)[j],
                opt_steps(final(self).deleted_fs_nodes_flow_steps)[j],
                opt_map(branch.deleted_flow_step_nodes),
            ),
            opt_list_sets(final(self).removed_node_ids_by_flow_step) == fold_removed_nodes(
                opt_list_sets(old(self).removed_node_ids_by_flow_step),
                opt_steps(old(self).deleted_fs_nodes_flow_steps),
                opt_map(branch.deleted_flow_step_nodes),
            ),
            final(self).created_fs_nodes_flow_steps == old(self).created_fs_nodes_flow_steps,
            final(self).added_node_ids_by_flow_step == old(self).added_node_ids_by_flow_step,
    {
        let mut steps = match self.deleted_fs_nodes_flow_steps.take() {
            Some(v) => v,
            None => {
                return Vec::new();
            },
        };
        let ghost pre = *self;
        let ghost all = steps@;
        let ghost deleted = opt_map(branch.deleted_flow_step_nodes);
        let ghost start = opt_list_sets(self.removed_node_ids_by_flow_step);
        let empty: HashMap<u128, HashSet<u128>> = HashMap::new();
        let dmap = match &branch.deleted_flow_step_nodes {
            Some(m) => m,
            None => &empty,
        };
        let mut out: Vec<FlowStep> = Vec::new();
        let mut changed: Vec<u128> = Vec::new();
        while steps.len() > 0
            invariant
                out@.len() + steps@.len() == all.len(),
                steps@ == all.subrange(out@.len() as int, all.len() as int),
                deleted == dmap@,
                self.created_fs_nodes_flow_steps == pre.created_fs_nodes_flow_steps,
                self.added_node_ids_by_flow_step == pre.added_node_ids_by_flow_step,
                forall|j: int| 0 <= j < out@.len() ==> after_removing_nodes(#[trigger] all[j], out@[j], deleted),
                opt_list_sets(self.removed_node_ids_by_flow_step) == fold_removed_nodes(
                    start,
                    all.take(out@.len() as int),
                    deleted,
                ),
            decreases steps@.len(),
        {
            let k = out.len();
            let mut fs = steps.remove(0);
            proof {
                assert(fs == all[k as int]);
                assert(all.take(k as int + 1).drop_last() =~= all.take(k as int));
                assert(all.take(k as int + 1).last() == all[k as int]);
            }
            let d = fs.remove_branch_deleted_nodes(dmap);
            proof {
                if d@.len() == 0 {
                    assert(d@.to_set() =~= Set::<u128>::empty());
                } else {
                    assert(d@.to_set().contains(d@[0]));
                }
            }
            if d.len() > 0 {
                let ghost before = opt_list_sets(self.removed_node_ids_by_flow_step);
                let id = fs.id;
                record_delta(&mut self.removed_node_ids_by_flow_step, id, d);
                proof {
                    assert(list_sets(self.removed_node_ids_by_flow_step.unwrap()@) =~= or_empty(before).insert(
                        id,
                        nodes_removed_for(all[k as int], deleted),
                    ));
                }
                changed.push(id);
            }
            out.push(fs);
            proof {
                assert(steps@ =~= all.subrange(out@.len() as int, all.len() as int));
            }
        }
        proof {
            assert(all.take(all.len() as int) =~= all);
        }
        self.deleted_fs_nodes_flow_steps = Some(out);
        changed
    }

    /// Puts back into each original step the nodes recorded as taken out of
    /// it. Gives back the ids of the steps changed, to be saved.
    pub fn undo_delete_flow_step_nodes(&mut self) -> (changed: Vec<u128>)
        ensures
            final(self).deleted_fs_nodes_flow_steps is Some <==> old(self).deleted_fs_nodes_flow_steps is Some,
            opt_steps(final(self).deleted_fs_nodes_flow_steps).len() == opt_steps(old(self).deleted_fs_nodes_flow_steps).len(),
            forall|j: int| 0 <= j < opt_steps(old(self).deleted_fs_nodes_flow_steps).len() ==> after_putting_back_nodes(
                #[trigger] opt_steps(old(self).deleted_fs_nodes_flow_steps)[j],
                opt_steps(final(self).deleted_fs_nodes_flow_steps)[j],
                or_empty(opt_list_map(old(self).removed_node_ids_by_flow_step)),
            ),
            final(self).removed_node_ids_by_flow_step == old(self).removed_node_ids_by_flow_step,
            final(self).created_fs_nodes_flow_steps == old(self).created_fs_nodes_flow_steps,
            final(self).added_node_ids_by_flow_step == old(self).added_node_ids_by_flow_step,
    {
        let mut steps = match self.deleted_fs_nodes_flow_steps.take() {
            Some(v) => v,
            None => {
                return Vec::new();
            },
        };
        let ghost pre = *self;
        let ghost all = steps@;
        let ghost recorded = or_empty(opt_list_map(self.removed_node_ids_by_flow_step));
        let mut out: Vec<FlowStep> = Vec::new();
        let mut changed: Vec<u128> = Vec::new();
        while steps.len() > 0
            invariant
                out@.len() + steps@.len() == all.len(),
                steps@ == all.subrange(out@.len() as int, all.len() as int),
                recorded == or_empty(opt_list_map(self.removed_node_ids_by_flow_step)),
                self.removed_node_ids_by_flow_step == pre.removed_node_ids_by_flow_step,
                self.created_fs_nodes_flow_steps == pre.created_fs_nodes_flow_steps,
                self.added_node_ids_by_flow_step == pre.added_node_ids_by_flow_step,
                forall|j: int| 0 <= j < out@.len() ==> after_putting_back_nodes(#[trigger] all[j], out@[j], recorded),
            decreases steps@.len(),
        {
            let k = out.len();
            let mut fs = steps.remove(0);
            proof {
                assert(fs == all[k as int]);
            }
            let found = match &self.removed_node_ids_by_flow_step {
                Some(m) => m.get(&fs.id),
                None => None,
            };
            if let Some(ids) = found {
                fs.append_nodes(ids.as_slice());
                changed.push(fs.id);
            }
            out.push(fs);
            proof {
                assert(steps@ =~= all.subrange(out@.len() as int, all.len() as int));
            }
        }
        self.deleted_fs_nodes_flow_steps = Some(out);
        changed
    }

    /// Adds to each original step whose inputs the branch added to the
    /// inputs its branch's version has and it lacks, and records what was
    /// added per step. Gives back the ids of the steps changed, to be saved.
    pub fn create_inputs(&mut self) -> (changed: Vec<u128>)
        ensures
            final(self).created_fs_inputs_flow_steps is Some <==> old(self).created_fs_inputs_flow_steps is Some,
            opt_steps(final(self).created_fs_inputs_flow_steps).len() == opt_steps(old(self).created_fs_inputs_flow_steps).len(),
            forall|j: int| 0 <= j < opt_steps(old(self).created_fs_inputs_flow_steps).len() ==> after_adding_inputs(
                #[trigger] opt_steps(old(self).created_fs_inputs_flow_steps)[j],
                opt_steps(final(self).created_fs_inputs_flow_steps)[j],
                opt_map(old(self).branched_created_fs_inputs_flow_steps),
            ),
            opt_delta_lists(final(self).added_input_ids_by_flow_step) == fold_added_inputs(
                opt_delta_lists(old(self).added_input_ids_by_flow_step),
                opt_steps(old(self).created_fs_inputs_flow_steps),
                opt_map(old(self).branched_created_fs_inputs_flow_steps),
            ),
            final(self).branched_created_fs_inputs_flow_steps == old(self).branched_created_fs_inputs_flow_steps,
            final(self).deleted_fs_inputs_flow_steps == old(self).deleted_fs_inputs_flow_steps,
            final(self).removed_input_ids_by_flow_step == old(self).removed_input_ids_by_flow_step,
            final(self).created_fs_nodes_flow_steps == old(self).created_fs_nodes_flow_steps,
            final(self).deleted_fs_nodes_flow_steps == old(self).deleted_fs_nodes_flow_steps,
            final(self).added_node_ids_by_flow_step == old(self).added_node_ids_by_flow_step,
            final(self).removed_node_ids_by_flow_step == old(self).removed_node_ids_by_flow_step,
    {
        let mut steps = match self.created_fs_inputs_flow_steps.take() {
            Some(v) => v,
            None => {
                return Vec::new();
            },
        };
        let ghost pre = *self;
        let ghost all = steps@;
        let ghost branched = opt_map(self.branched_created_fs_inputs_flow_steps);
        let ghost start = opt_delta_lists(self.added_input_ids_by_flow_step);
        let mut out: Vec<FlowStep> = Vec::new();
        let mut changed: Vec<u128> = Vec::new();
        while steps.len() > 0
            invariant
                out@.len() + steps@.len() == all.len(),
                steps@ == all.subrange(out@.len() as int, all.len() as int),
                branched == opt_map(self.branched_created_fs_inputs_flow_steps),
                self.branched_created_fs_inputs_flow_steps == pre.branched_created_fs_inputs_flow_steps,
                self.deleted_fs_inputs_flow_steps == pre.deleted_fs_inputs_flow_steps,
                self.removed_input_ids_by_flow_step == pre.removed_input_ids_by_flow_step,
                self.created_fs_nodes_flow_steps == pre.created_fs_nodes_flow_steps,
                self.deleted_fs_nodes_flow_steps == pre.deleted_fs_nodes_flow_steps,
                self.added_node_ids_by_flow_step == pre.added_node_ids_by_flow_step,
                self.removed_node_ids_by_flow_step == pre.removed_node_ids_by_flow_step,
                forall|j: int| 0 <= j < out@.len() ==> after_adding_inputs(#[trigger] all[j], out@[j], branched),
                opt_delta_lists(self.added_input_ids_by_flow_step) == fold_added_inputs(
                    start,
                    all.take(out@.len() as int),
                    branched,
                ),
            decreases steps@.len(),
        {
            let k = out.len();
            let mut fs = steps.remove(0);
            proof {
                assert(fs == all[k as int]);
                assert(all.take(k as int + 1).drop_last() =~= all.take(k as int));
                assert(all.take(k as int + 1).last() == all[k as int]);
            }
            let d = fs.merge_branched_inputs(&self.branched_created_fs_inputs_flow_steps);
            proof {
                assert(list_map_view(d@).dom() == d@.dom());
            }
            if d.len() > 0 {
                proof {
                    assert(d@.dom().len() > 0);
                    assert(!d@.dom().is_empty());
                }
                let ghost before = opt_delta_lists(self.added_input_ids_by_flow_step);
                let id = fs.id;
                record_delta(&mut self.added_input_ids_by_flow_step, id, d);
                proof {
                    assert(opt_delta_lists(self.added_input_ids_by_flow_step).unwrap() =~= or_empty(before).insert(
                        id,
                        inputs_added_for(all[k as int], branched),
                    ));
                }
                changed.push(id);
            } else {
                proof {
                    assert(d@.dom() =~= Set::<u128>::empty());
                }
            }
            out.push(fs);
            proof {
                assert(steps@ =~= all.subrange(out@.len() as int, all.len() as int));
            }
        }
        proof {
            assert(all.take(all.len() as int) =~= all);
        }
        self.created_fs_inputs_flow_steps = Some(out);
        changed
    }

    /// Takes back out of each original step the inputs recorded as added to
    /// it. Gives back the ids of the steps changed, to be saved.
    pub fn undo_create_inputs(&mut self) -> (changed: Vec<u128>)
        ensures
            final(self).created_fs_inputs_flow_steps is Some <==> old(self).created_fs_inputs_flow_steps is Some,
            opt_steps(final(self).created_fs_inputs_flow_steps).len() == opt_steps(old(self).created_fs_inputs_flow_steps).len(),
            forall|j: int| 0 <= j < opt_steps(old(self).created_fs_inputs_flow_steps).len() ==> after_taking_out_inputs(
                #[trigger] opt_steps(old(self).created_fs_inputs_flow_steps)[j],
                opt_steps(final(self).created_fs_inputs_flow_steps)[j],
                or_empty(opt_delta_lists(old(self).added_input_ids_by_flow_step)),
            ),
            final(self).added_input_ids_by_flow_step == old(self).added_input_ids_by_flow_step,
            final(self).deleted_fs_inputs_flow_steps == old(self).deleted_fs_inputs_flow_steps,
            final(self).removed_input_ids_by_flow_step == old(self).removed_input_ids_by_flow_step,
    {
        let mut steps = match self.created_fs_inputs_flow_steps.take() {
            Some(v) => v,
            None => {
                return Vec::new();
            },
        };
        let ghost pre = *self;
        let ghost all = steps@;
        let ghost recorded = or_empty(opt_delta_lists(self.added_input_ids_by_flow_step));
        let mut out: Vec<FlowStep> = Vec::new();
        let mut changed: Vec<u128> = Vec::new();
        while steps.len() > 0
            invariant
                out@.len() + steps@.len() == all.len(),
                steps@ == all.subrange(out@.len() as int, all.len() as int),
                recorded == or_empty(opt_delta_lists(self.added_input_ids_by_flow_step)),
                self.added_input_ids_by_flow_step == pre.added_input_ids_by_flow_step,
                self.deleted_fs_inputs_flow_steps == pre.deleted_fs_inputs_flow_steps,
                self.removed_input_ids_by_flow_step == pre.removed_input_ids_by_flow_step,
                forall|j: int| 0 <= j < out@.len() ==> after_taking_out_inputs(#[trigger] all[j], out@[j], recorded),
            decreases steps@.len(),
        {
            let k = out.len();
            let mut fs = steps.remove(0);
            proof {
                assert(fs == all[k as int]);
            }
            let found = match &self.added_input_ids_by_flow_step {
                Some(m) => m.get(&fs.id),
                None => None,
            };
            if let Some(ids) = found {
                fs.remove_inputs(ids);
                changed.push(fs.id);
            }
            out.push(fs);
            proof {
                assert(steps@ =~= all.subrange(out@.len() as int, all.len() as int));
            }
        }
        self.created_fs_inputs_flow_steps = Some(out);
        changed
    }

    /// Takes out of each original step the inputs the branch deleted from it
    /// and that it still holds, except those the branch also created, and
    /// records what was taken out per step. Gives back the ids of the steps
    /// changed, to be saved. Steps that the branch also added inputs to are
    /// to be read anew first (see `steps_to_reload_for_inputs`).
    pub fn delete_inputs(&mut self, branch: &Branch) -> (changed: Vec<u128>)
        ensures
            final(self).deleted_fs_inputs_flow_steps is Some <==> old(self).deleted_fs_inputs_flow_steps is Some,
            opt_steps(final(self).deleted_fs_inputs_flow_steps).len() == opt_steps(old(self).deleted_fs_inputs_flow_steps).len(),
            forall|j: int| 0 <= j < opt_steps(old(self).deleted_fs_inputs_flow_steps).len() ==> after_removing_inputs(
                #[trigger] opt_steps(old(self).deleted_fs_inputs_flow_steps)[j],
                opt_steps(final(self).deleted_fs_inputs_flow_steps)[j],
                opt_map(branch.deleted_flow_step_inputs_by_node),
                opt_map(branch.created_flow_step_inputs_by_node),
            ),
            opt_delta_sets(final(self).removed_input_ids_by_flow_step) == fold_removed_inputs(
                opt_delta_sets(old(self).removed_input_ids_by_flow_step),
                opt_steps(old(self).deleted_fs_inputs_flow_steps),
                opt_map(branch.deleted_flow_step_inputs_by_node),
                opt_map(branch.created_flow_step_inputs_by_node),
            ),
            final(self).created_fs_inputs_flow_steps == old(self).created_fs_inputs_flow_steps,
            final(self).added_input_ids_by_flow_step == old(self).added_input_ids_by_flow_step,
    {
        let mut steps = match self.deleted_fs_inputs_flow_steps.take() {
            Some(v) => v,
            None => {
                return Vec::new();
            },
        };
        let ghost pre = *self;
        let ghost all = steps@;
        let ghost deleted = opt_map(branch.deleted_flow_step_inputs_by_node);
        let ghost created = opt_map(branch.created_flow_step_inputs_by_node);
        let ghost start = opt_delta_sets(self.removed_input_ids_by_flow_step);
        let empty: HashMap<u128, HashMap<u128, HashSet<u128>>> = HashMap::new();
        let dmap = match &branch.deleted_flow_step_inputs_by_node {
            Some(m) => m,
            None => &empty,
        };
        let mut out: Vec<FlowStep> = Vec::new();
        let mut changed: Vec<u128> = Vec::new();
        while steps.len() > 0
            invariant
                out@.len() + steps@.len() == all.len(),
                steps@ == all.subrange(out@.len() as int, all.len() as int),
                deleted == dmap@,
                created == opt_map(branch.created_flow_step_inputs_by_node),
                self.created_fs_inputs_flow_steps == pre.created_fs_inputs_flow_steps,
                self.added_input_ids_by_flow_step == pre.added_input_ids_by_flow_step,
                forall|j: int| 0 <= j < out@.len() ==> after_removing_inputs(#[trigger] all[j], out@[j], deleted, created),
                opt_delta_sets(self.removed_input_ids_by_flow_step) == fold_removed_inputs(
                    start,
                    all.take(out@.len() as int),
                    deleted,
                    created,
                ),
            decreases steps@.len(),
        {
            let k = out.len();
            let mut fs = steps.remove(0);
            proof {
                assert(fs == all[k as int]);
                assert(all.take(k as int + 1).drop_last() =~= all.take(k as int));
                assert(all.take(k as int + 1).last() == all[k as int]);
            }
            let d = fs.remove_branch_deleted_inputs(dmap, &branch.created_flow_step_inputs_by_node);
            proof {
                assert(list_sets(d@).dom() == d@.dom());
            }
            if d.len() > 0 {
                proof {
                    assert(d@.dom().len() > 0);
                    assert(!d@.dom().is_empty());
                }
                let ghost before = opt_delta_sets(self.removed_input_ids_by_flow_step);
                let id = fs.id;
                record_delta(&mut self.removed_input_ids_by_flow_step, id, d);
                proof {
                    assert(opt_delta_sets(self.removed_input_ids_by_flow_step).unwrap() =~= or_empty(before).insert(
                        id,
                        inputs_removed_for(all[k as int], deleted, created),
                    ));
                }
                changed.push(id);
            } else {
                proof {
                    assert(d@.dom() =~= Set::<u128>::empty());
                }
            }
            out.push(fs);
            proof {
                assert(steps@ =~= all.subrange(out@.len() as int, all.len() as int));
            }
        }
        proof {
            assert(all.take(all.len() as int) =~= all);
        }
        self.deleted_fs_inputs_flow_steps = Some(out);
        changed
    }

    /// Puts back into each original step the inputs recorded as taken out of
    /// it. Gives back the ids of the steps changed, to be saved.
    pub fn undo_delete_inputs(&mut self) -> (changed: Vec<u128>)
        ensures
            final(self).deleted_fs_inputs_flow_steps is Some <==> old(self).deleted_fs_inputs_flow_steps is Some,
            opt_steps(final(self).deleted_fs_inputs_flow_steps).len() == opt_steps(old(self).deleted_fs_inputs_flow_steps).len(),
            forall|j: int| 0 <= j < opt_steps(old(self).deleted_fs_inputs_flow_steps).len() ==> after_putting_back_inputs(
                #[trigger] opt_steps(old(self).deleted_fs_inputs_flow_steps)[j],
                opt_steps(final(self).deleted_fs_inputs_flow_steps)[j],
                or_empty(opt_delta_lists(old(self).removed_input_ids_by_flow_step)),
            ),
            final(self).removed_input_ids_by_flow_step == old(self).removed_input_ids_by_flow_step,
            final(self).created_fs_inputs_flow_steps == old(self).created_fs_inputs_flow_steps,
            final(self).added_input_ids_by_flow_step == old(self).added_input_ids_by_flow_step,
    {
        let mut steps = match self.deleted_fs_inputs_flow_steps.take() {
            Some(v) => v,
            None => {
                return Vec::new();
            },
        };
        let ghost pre = *self;
        let ghost all = steps@;
        let ghost recorded = or_empty(opt_delta_lists(self.removed_input_ids_by_flow_step));
        let mut out: Vec<FlowStep> = Vec::new();
        let mut changed: Vec<u128> = Vec::new();
        while steps.len() > 0
            invariant
                out@.len() + steps@.len() == all.len(),
                steps@ == all.subrange(out@.len() as int, all.len() as int),
                recorded == or_empty(opt_delta_lists(self.removed_input_ids_by_flow_step)),
                self.removed_input_ids_by_flow_step == pre.removed_input_ids_by_flow_step,
                self.created_fs_inputs_flow_steps == pre.created_fs_inputs_flow_steps,
                self.added_input_ids_by_flow_step == pre.added_input_ids_by_flow_step,
                forall|j: int| 0 <= j < out@.len() ==> after_putting_back_inputs(#[trigger] all[j], out@[j], recorded),
            decreases steps@.len(),
        {
            let k = out.len();
            let mut fs = steps.remove(0);
            proof {
                assert(fs == all[k as int]);
            }
            let found = match &self.removed_input_ids_by_flow_step {
                Some(m) => m.get(&fs.id),
                None => None,
            };
            if let Some(ids) = found {
                fs.append_inputs(ids);
                changed.push(fs.id);
            }
            out.push(fs);
            proof {
                assert(steps@ =~= all.subrange(out@.len() as int, all.len() as int));
            }
        }
        self.deleted_fs_inputs_flow_steps = Some(out);
        changed
    }

    /// The original steps to read anew before nodes are taken out of them:
    /// those the branch also added nodes to, which this merge has changed.
    pub fn steps_to_reload_for_nodes(&self, branch: &Branch) -> (ids: Vec<u128>)
        ensures
            forall|x: u128| #[trigger] ids@.contains(x) <==> (exists|j: int|
                0 <= j < opt_steps(self.deleted_fs_nodes_flow_steps).len()
                && opt_steps(self.deleted_fs_nodes_flow_steps)[j].id == x)
                && opt_map(branch.created_flow_step_nodes).contains_key(x)
                && opt_map(branch.deleted_flow_step_nodes).contains_key(x),
    {
        let mut ids: Vec<u128> = Vec::new();
        if let (Some(steps), Some(created), Some(deleted)) = (
            &self.deleted_fs_nodes_flow_steps,
            &branch.created_flow_step_nodes,
            &branch.deleted_flow_step_nodes,
        ) {
            let mut i: usize = 0;
            while i < steps.len()
                invariant
                    i <= steps.len(),
                    self.deleted_fs_nodes_flow_steps == Some(*steps),
                    branch.created_flow_step_nodes == Some(*created),
                    branch.deleted_flow_step_nodes == Some(*deleted),
                    forall|x: u128| #[trigger] ids@.contains(x) <==> (exists|j: int|
                        0 <= j < i && steps@[j].id == x) && created@.contains_key(x) && deleted@.contains_key(x),
                decreases steps.len() - i,
            {
                let id = steps[i].id;
                let ghost before = ids@;
                if created.contains_key(&id) && deleted.contains_key(&id) {
                    ids.push(id);
                }
                proof {
                    assert forall|x: u128| #[trigger] ids@.contains(x) <==> (exists|j: int|
                        0 <= j < i + 1 && steps@[j].id == x) && created@.contains_key(x) && deleted@.contains_key(x) by {
                        if x == id && created@.contains_key(x) && deleted@.contains_key(x) {
                            assert(ids@[ids@.len() - 1] == x);
                        }
                        if ids@.contains(x) && !before.contains(x) {
                            assert(x == id);
                        }
                        if before.contains(x) {
                            let t = choose|t: int| 0 <= t < before.len() && before[t] == x;
                            assert(ids@[t] == x);
                        }
                        if (exists|j: int| 0 <= j < i + 1 && steps@[j].id == x) && x != id {
                            let j = choose|j: int| 0 <= j < i + 1 && steps@[j].id == x;
                            assert(j < i);
                        }
                    }
                }
                i = i + 1;
            }
        }
        ids
    }
}


/// Whether a step is still there for the merge: neither it, nor its node,
/// nor its flow was deleted on the branch.
pub open spec fn survives(b: &Branch, f: FlowStep) -> bool {
    !opt_set(b.deleted_nodes).contains(f.node_id) && !opt_set(b.deleted_flows).contains(f.flow_id) && !opt_set(
        b.deleted_flow_steps,
    ).contains(f.id)
}

/// Steps by id, a later step with an id replacing an earlier one.
pub open spec fn steps_by_id_spec(v: Seq<FlowStep>) -> Map<u128, FlowStep>
    decreases v.len(),
{
    if v.len() == 0 {
        Map::empty()
    } else {
        steps_by_id_spec(v.drop_last()).insert(v.last().id, v.last())
    }
}

impl MergeFlowSteps {
    /// The steps the merge still carries (see `survives`), in their order.
    pub fn filter_out_deleted_flow_steps(branch: &Branch, steps: Vec<FlowStep>) -> (r: Vec<FlowStep>)
        ensures
            r@ == steps@.filter(|f: FlowStep| survives(branch, f)),
    {
        let ghost keep = |f: FlowStep| survives(branch, f);
        let mut r: Vec<FlowStep> = Vec::new();
        let mut rest = steps;
        let ghost all = rest@;
        let n = rest.len();
        let mut k: usize = 0;
        while rest.len() > 0
            invariant
                all.len() == n,
                k + rest@.len() == all.len(),
                rest@ == all.subrange(k as int, all.len() as int),
                keep == (|f: FlowStep| survives(branch, f)),
                r@ == all.take(k as int).filter(keep),
            decreases rest@.len(),
        {
            let f = rest.remove(0);
            proof {
                assert(f == all[k as int]);
                assert(all.take(k as int + 1).drop_last() =~= all.take(k as int));
                assert(all.take(k as int + 1).last() == all[k as int]);
                reveal(Seq::filter);
            }
            if !opt_contains(&branch.deleted_nodes, f.node_id) && !opt_contains(&branch.deleted_flows, f.flow_id)
                && !opt_contains(&branch.deleted_flow_steps, f.id) {
                r.push(f);
            }
            proof {
                assert(rest@ =~= all.subrange(k as int + 1, all.len() as int));
            }
            k = k + 1;
        }
        proof {
            assert(all.take(all.len() as int) =~= all);
        }
        r
    }

    /// The restored steps that the original does not hold yet, in their order.
    pub fn not_yet_restored(steps: Vec<FlowStep>, already_restored: &HashSet<u128>) -> (r: Vec<FlowStep>)
        ensures
            r@ == steps@.filter(|f: FlowStep| !already_restored@.contains(f.id)),
    {
        let ghost keep = |f: FlowStep| !already_restored@.contains(f.id);
        let mut r: Vec<FlowStep> = Vec::new();
        let mut rest = steps;
        let ghost all = rest@;
        let n = rest.len();
        let mut k: usize = 0;
        while rest.len() > 0
            invariant
                all.len() == n,
                k + rest@.len() == all.len(),
                rest@ == all.subrange(k as int, all.len() as int),
                keep == (|f: FlowStep| !already_restored@.contains(f.id)),
                r@ == all.take(k as int).filter(keep),
            decreases rest@.len(),
        {
            let f = rest.remove(0);
            proof {
                assert(f == all[k as int]);
                assert(all.take(k as int + 1).drop_last() =~= all.take(k as int));
                assert(all.take(k as int + 1).last() == all[k as int]);
                reveal(Seq::filter);
            }
            if !already_restored.contains(&f.id) {
                r.push(f);
            }
            proof {
                assert(rest@ =~= all.subrange(k as int + 1, all.len() as int));
            }
            k = k + 1;
        }
        proof {
            assert(all.take(all.len() as int) =~= all);
        }
        r
    }

    /// Steps by id (see `steps_by_id_spec`).
    pub fn steps_by_id(steps: Vec<FlowStep>) -> (r: HashMap<u128, FlowStep>)
        ensures
            r@ == steps_by_id_spec(steps@),
    {
        let mut m: HashMap<u128, FlowStep> = HashMap::new();
        let mut rest = steps;
        let ghost all = rest@;
        let n = rest.len();
        let mut k: usize = 0;
        while rest.len() > 0
            invariant
                all.len() == n,
                k + rest@.len() == all.len(),
                rest@ == all.subrange(k as int, all.len() as int),
                m@ == steps_by_id_spec(all.take(k as int)),
            decreases rest@.len(),
        {
            let f = rest.remove(0);
            proof {
                assert(f == all[k as int]);
                assert(all.take(k as int + 1).drop_last() =~= all.take(k as int));
                assert(all.take(k as int + 1).last() == all[k as int]);
            }
            m.insert(f.id, f);
            proof {
                assert(rest@ =~= all.subrange(k as int + 1, all.len() as int));
            }
            k = k + 1;
        }
        proof {
            assert(all.take(all.len() as int) =~= all);
        }
        m
    }
}

impl MergeFlowSteps {
    /// The created steps that the branch keeps despite a collision with an
    /// original step, in their order: these move to the next free index
    /// before they are created in the original.
    pub fn kept_created_steps(&self, branch: &Branch) -> (r: Vec<u128>)
        ensures
            r@ == opt_steps(self.created_flow_steps).filter(|f: FlowStep| opt_set(branch.kept_flow_steps).contains(f.id))
                .map_values(|f: FlowStep| f.id),
    {
        let ghost keep = |f: FlowStep| opt_set(branch.kept_flow_steps).contains(f.id);
        let mut r: Vec<u128> = Vec::new();
        if let Some(v) = &self.created_flow_steps {
            let mut i: usize = 0;
            while i < v.len()
                invariant
                    i <= v.len(),
                    self.created_flow_steps == Some(*v),
                    keep == (|f: FlowStep| opt_set(branch.kept_flow_steps).contains(f.id)),
                    r@ == v@.take(i as int).filter(keep).map_values(|f: FlowStep| f.id),
                decreases v.len() - i,
            {
                proof {
                    assert(v@.take(i as int + 1).drop_last() =~= v@.take(i as int));
                    assert(v@.take(i as int + 1).last() == v@[i as int]);
                    reveal(Seq::filter);
                }
                if opt_contains(&branch.kept_flow_steps, v[i].id) {
                    r.push(v[i].id);
                }
                proof {
                    assert(r@ =~= v@.take(i as int + 1).filter(keep).map_values(|f: FlowStep| f.id));
                }
                i = i + 1;
            }
            proof {
                assert(v@.take(v@.len() as int) =~= v@);
            }
        } else {
            proof {
                assert(Seq::<FlowStep>::empty().filter(keep) =~= Seq::<FlowStep>::empty()) by {
                    reveal(Seq::filter);
                }
                assert(r@ =~= Seq::<FlowStep>::empty().filter(keep).map_values(|f: FlowStep| f.id));
            }
        }
        r
    }
}

/// Whether the steps of a list have distinct ids.
pub open spec fn distinct_ids(steps: Seq<FlowStep>) -> bool {
    forall|i: int, j: int| 0 <= i < steps.len() && 0 <= j < steps.len() && i != j ==> #[trigger] steps[i].id
        != #[trigger] steps[j].id
}

/// Recording the added nodes of steps with distinct ids, over a record
/// that holds nothing for them yet, records for each step exactly its delta,
/// when it has one, and nothing otherwise.
pub proof fn lemma_fold_added_nodes(
    start: Option<Map<u128, Seq<u128>>>,
    steps: Seq<FlowStep>,
    branched: Map<u128, FlowStep>,
)
    requires
        distinct_ids(steps),
        forall|j: int| 0 <= j < steps.len() ==> !or_empty(start).contains_key(#[trigger] steps[j].id),
    ensures
        forall|j: int| 0 <= j < steps.len() ==> (#[trigger] or_empty(fold_added_nodes(start, steps, branched)).contains_key(
            steps[j].id,
        ) <==> nodes_added_for(steps[j], branched).len() > 0),
        forall|j: int|
            0 <= j < steps.len() && nodes_added_for(steps[j], branched).len() > 0 ==> #[trigger] or_empty(
                fold_added_nodes(start, steps, branched),
            )[steps[j].id] == nodes_added_for(steps[j], branched),
    decreases steps.len(),
{
    if steps.len() > 0 {
        let init = steps.drop_last();
        assert forall|i: int, j: int| 0 <= i < init.len() && 0 <= j < init.len() && i != j implies #[trigger] init[i].id
            != #[trigger] init[j].id by {
            assert(steps[i].id != steps[j].id);
        }
        assert forall|j: int| 0 <= j < init.len() implies !or_empty(start).contains_key(#[trigger] init[j].id) by {
            assert(init[j] == steps[j]);
        }
        lemma_fold_added_nodes(start, init, branched);
        let last = steps.len() - 1;
        assert forall|j: int| 0 <= j < last implies steps[j].id != steps[last].id by {
            assert(steps[j].id != steps[last].id);
        }
        assert(!or_empty(start).contains_key(steps[last].id));
        assert(!or_empty(fold_added_nodes(start, init, branched)).contains_key(steps[last].id)) by {
            lemma_fold_keys(start, init, branched, steps[last].id);
            if or_empty(fold_added_nodes(start, init, branched)).contains_key(steps[last].id) {
                let j = choose|j: int| 0 <= j < init.len() && init[j].id == steps[last].id;
                assert(steps[j] == init[j]);
                assert(steps[j].id != steps[last].id);
            }
        }
        assert forall|j: int| 0 <= j < steps.len() implies (#[trigger] or_empty(
            fold_added_nodes(start, steps, branched),
        ).contains_key(steps[j].id) <==> nodes_added_for(steps[j], branched).len() > 0) by {
            if j < last {
                assert(steps[j] == init[j]);
            }
        }
        assert forall|j: int|
            0 <= j < steps.len() && nodes_added_for(steps[j], branched).len() > 0 implies #[trigger] or_empty(
            fold_added_nodes(start, steps, branched),
        )[steps[j].id] == nodes_added_for(steps[j], branched) by {
            if j < last {
                assert(steps[j] == init[j]);
            }
        }
    }
}

/// A key of the recorded added nodes was recorded before or is the id of
/// one of the steps.
pub proof fn lemma_fold_keys(
    start: Option<Map<u128, Seq<u128>>>,
    steps: Seq<FlowStep>,
    branched: Map<u128, FlowStep>,
    k: u128,
)
    ensures
        or_empty(fold_added_nodes(start, steps, branched)).contains_key(k) ==> or_empty(start).contains_key(k) || exists|
            j: int,
        | 0 <= j < steps.len() && steps[j].id == k,
    decreases steps.len(),
{
    if steps.len() > 0 {
        let init = steps.drop_last();
        lemma_fold_keys(start, init, branched, k);
        if or_empty(fold_added_nodes(start, init, branched)).contains_key(k) && !or_empty(start).contains_key(k) {
            let j = choose|j: int| 0 <= j < init.len() && init[j].id == k;
            assert(steps[j] == init[j]);
        }
        if k == steps.last().id {
            assert(steps[steps.len() - 1].id == k);
        }
    }
}

/// Recording the removed nodes of steps with distinct ids, from nothing,
/// records for each step exactly its delta, when it has one.
pub proof fn lemma_fold_removed_nodes(steps: Seq<FlowStep>, deleted: Map<u128, HashSet<u128>>)
    requires
        distinct_ids(steps),
    ensures
        forall|k: u128| #[trigger] or_empty(fold_removed_nodes(None, steps, deleted)).contains_key(k) ==> exists|j: int|
            0 <= j < steps.len() && steps[j].id == k,
        forall|j: int| 0 <= j < steps.len() ==> (#[trigger] or_empty(fold_removed_nodes(None, steps, deleted)).contains_key(
            steps[j].id,
        ) <==> !nodes_removed_for(steps[j], deleted).is_empty()),
        forall|j: int|
            0 <= j < steps.len() && !nodes_removed_for(steps[j], deleted).is_empty() ==> #[trigger] or_empty(
                fold_removed_nodes(None, steps, deleted),
            )[steps[j].id] == nodes_removed_for(steps[j], deleted),
    decreases steps.len(),
{
    if steps.len() > 0 {
        let init = steps.drop_last();
        assert forall|i: int, j: int| 0 <= i < init.len() && 0 <= j < init.len() && i != j implies #[trigger] init[i].id
            != #[trigger] init[j].id by {
            assert(steps[i].id != steps[j].id);
        }
        lemma_fold_removed_nodes(init, deleted);
        let last = steps.len() - 1;
        assert forall|j: int| 0 <= j < last implies steps[j].id != steps[last].id by {
            assert(steps[j].id != steps[last].id);
        }
        assert forall|k: u128| #[trigger] or_empty(fold_removed_nodes(None, steps, deleted)).contains_key(k) implies exists|j: int|
            0 <= j < steps.len() && steps[j].id == k by {
            if k != steps[last].id {
                assert(or_empty(fold_removed_nodes(None, init, deleted)).contains_key(k));
                let j = choose|j: int| 0 <= j < init.len() && init[j].id == k;
                assert(steps[j] == init[j]);
            }
        }
        if or_empty(fold_removed_nodes(None, init, deleted)).contains_key(steps[last].id) {
            let j = choose|j: int| 0 <= j < init.len() && init[j].id == steps[last].id;
            assert(steps[j] == init[j]);
            assert(steps[j].id != steps[last].id);
        }
        assert forall|j: int| 0 <= j < steps.len() implies (#[trigger] or_empty(
            fold_removed_nodes(None, steps, deleted),
        ).contains_key(steps[j].id) <==> !nodes_removed_for(steps[j], deleted).is_empty()) by {
            if j < last {
                assert(steps[j] == init[j]);
            }
        }
        assert forall|j: int|
            0 <= j < steps.len() && !nodes_removed_for(steps[j], deleted).is_empty() implies #[trigger] or_empty(
            fold_removed_nodes(None, steps, deleted),
        )[steps[j].id] == nodes_removed_for(steps[j], deleted) by {
            if j < last {
                assert(steps[j] == init[j]);
            }
        }
    }
}

/// The nodes of a step, an absent list read as an empty one.
pub open spec fn nodes_or_empty(fs: FlowStep) -> Seq<u128> {
    match fs.node_ids {
        Some(v) => v@,
        None => Seq::empty(),
    }
}

/// Undoing the nodes a merge added to original steps gives every step its
/// node list back, in its order: exactly, for a step that held a list, and
/// as an empty list for a step that held none. This holds for steps with
/// distinct ids for which nothing was recorded before the merge (as a new
/// merge records nothing).
pub proof fn lemma_undo_create_nodes_restores(
    start: Option<Map<u128, Seq<u128>>>,
    steps: Seq<FlowStep>,
    merged: Seq<FlowStep>,
    undone: Seq<FlowStep>,
    branched: Map<u128, FlowStep>,
)
    requires
        distinct_ids(steps),
        forall|j: int| 0 <= j < steps.len() ==> !or_empty(start).contains_key(#[trigger] steps[j].id),
        merged.len() == steps.len(),
        undone.len() == steps.len(),
        forall|j: int| 0 <= j < steps.len() ==> after_adding_nodes(#[trigger] steps[j], merged[j], branched),
        forall|j: int| 0 <= j < steps.len() ==> after_taking_out_nodes(
            #[trigger] merged[j],
            undone[j],
            or_empty(fold_added_nodes(start, steps, branched)),
        ),
    ensures
        forall|j: int| 0 <= j < steps.len() ==> nodes_or_empty(#[trigger] undone[j]) == nodes_or_empty(steps[j]),
        forall|j: int| 0 <= j < steps.len() && steps[j].node_ids is Some ==> opt_seq((#[trigger] undone[j]).node_ids)
            == opt_seq(steps[j].node_ids),
{
    lemma_fold_added_nodes(start, steps, branched);
    assert forall|j: int| 0 <= j < steps.len() implies nodes_or_empty(#[trigger] undone[j]) == nodes_or_empty(steps[j])
        && (steps[j].node_ids is Some ==> opt_seq(undone[j].node_ids) == opt_seq(steps[j].node_ids)) by {
        let o = steps[j];
        let d = nodes_added_for(o, branched);
        let rec = or_empty(fold_added_nodes(start, steps, branched));
        assert(after_adding_nodes(steps[j], merged[j], branched));
        assert(after_taking_out_nodes(merged[j], undone[j], rec));
        assert(merged[j].id == o.id);
        if d.len() > 0 {
            assert(rec.contains_key(o.id));
            assert(rec[o.id] == d);
            let b = opt_seq(branched[o.id].node_ids).unwrap();
            match opt_seq(o.node_ids) {
                Some(os) => {
                    assert(d == seq_without(b, os.to_set()));
                    lemma_seq_without_to_set(b, os.to_set());
                    assert forall|i: int| 0 <= i < os.len() implies !d.contains(#[trigger] os[i]) by {
                        if d.contains(os[i]) {
                            assert(d.to_set().contains(os[i]));
                            assert(os.to_set().contains(os[i]));
                        }
                    }
                    lemma_merge_then_without(os, d);
                },
                None => {
                    assert(opt_seq(merged[j].node_ids) == Some(d));
                    lemma_without_own_items(d);
                    assert(nodes_or_empty(undone[j]) =~= Seq::<u128>::empty());
                },
            }
        } else {
            assert(!rec.contains_key(o.id));
        }
    }
}

/// Taking all of a list's own ids out of it leaves nothing.
pub proof fn lemma_without_own_items(s: Seq<u128>)
    ensures
        seq_without(s, s.to_set()) == Seq::<u128>::empty(),
{
    lemma_seq_without_to_set(s, s.to_set());
    let r = seq_without(s, s.to_set());
    if r.len() > 0 {
        assert(r.to_set().contains(r[0]));
    }
    assert(r =~= Seq::<u128>::empty());
}

/// The node set of a step; none when it holds no list.
pub open spec fn node_set(fs: FlowStep) -> Option<Set<u128>> {
    match opt_seq(fs.node_ids) {
        Some(s) => Some(s.to_set()),
        None => None,
    }
}

/// Undoing the nodes a merge took out of original steps gives every step
/// its nodes back: the same nodes, though those put back come last. This
/// holds for steps with distinct ids and no delta recorded before.
pub proof fn lemma_undo_delete_nodes_restores(
    steps: Seq<FlowStep>,
    removed: Seq<FlowStep>,
    undone: Seq<FlowStep>,
    deleted: Map<u128, HashSet<u128>>,
    recorded: Map<u128, Seq<u128>>,
)
    requires
        distinct_ids(steps),
        removed.len() == steps.len(),
        undone.len() == steps.len(),
        forall|j: int| 0 <= j < steps.len() ==> after_removing_nodes(#[trigger] steps[j], removed[j], deleted),
        recorded.dom() == or_empty(fold_removed_nodes(None, steps, deleted)).dom(),
        forall|k: u128| #[trigger] recorded.contains_key(k) ==> recorded[k].to_set() == or_empty(
            fold_removed_nodes(None, steps, deleted),
        )[k],
        forall|j: int| 0 <= j < steps.len() ==> after_putting_back_nodes(#[trigger] removed[j], undone[j], recorded),
    ensures
        forall|j: int| 0 <= j < steps.len() ==> node_set(#[trigger] undone[j]) == node_set(steps[j]),
{
    lemma_fold_removed_nodes(steps, deleted);
    assert forall|j: int| 0 <= j < steps.len() implies node_set(#[trigger] undone[j]) == node_set(steps[j]) by {
        let o = steps[j];
        let d = nodes_removed_for(o, deleted);
        let rec = or_empty(fold_removed_nodes(None, steps, deleted));
        assert(after_removing_nodes(steps[j], removed[j], deleted));
        assert(after_putting_back_nodes(removed[j], undone[j], recorded));
        assert(removed[j].id == o.id);
        if !d.is_empty() {
            assert(rec.contains_key(o.id));
            assert(recorded.contains_key(o.id));
            let os = opt_seq(o.node_ids).unwrap();
            let r = recorded[o.id];
            assert(r.to_set() == d);
            lemma_seq_without_to_set(os, d);
            let mid = seq_without(os, d);
            lemma_merge_unique_to_set(mid, r);
            assert(d.subset_of(os.to_set()));
            assert(merge_unique_seq(mid, r).to_set() =~= os.to_set());
        } else {
            assert(!rec.contains_key(o.id));
            assert(!recorded.contains_key(o.id));
        }
    }
}


/// Recording the added inputs of steps with distinct ids, from nothing,
/// records for each step exactly its delta, when it has one.
pub proof fn lemma_fold_added_inputs(steps: Seq<FlowStep>, branched: Map<u128, FlowStep>)
    requires
        distinct_ids(steps),
    ensures
        forall|k: u128| #[trigger] or_empty(fold_added_inputs(None, steps, branched)).contains_key(k) ==> exists|j: int|
            0 <= j < steps.len() && steps[j].id == k,
        forall|j: int| 0 <= j < steps.len() ==> (#[trigger] or_empty(fold_added_inputs(None, steps, branched)).contains_key(
            steps[j].id,
        ) <==> !inputs_added_for(steps[j], branched).dom().is_empty()),
        forall|j: int|
            0 <= j < steps.len() && !inputs_added_for(steps[j], branched).dom().is_empty() ==> #[trigger] or_empty(
                fold_added_inputs(None, steps, branched),
            )[steps[j].id] == inputs_added_for(steps[j], branched),
    decreases steps.len(),
{
    if steps.len() > 0 {
        let init = steps.drop_last();
        assert forall|i: int, j: int| 0 <= i < init.len() && 0 <= j < init.len() && i != j implies #[trigger] init[i].id
            != #[trigger] init[j].id by {
            assert(steps[i].id != steps[j].id);
        }
        lemma_fold_added_inputs(init, branched);
        let last = steps.len() - 1;
        assert forall|j: int| 0 <= j < last implies steps[j].id != steps[last].id by {
            assert(steps[j].id != steps[last].id);
        }
        assert forall|k: u128| #[trigger] or_empty(fold_added_inputs(None, steps, branched)).contains_key(k) implies exists|j: int|
            0 <= j < steps.len() && steps[j].id == k by {
            if k != steps[last].id {
                assert(or_empty(fold_added_inputs(None, init, branched)).contains_key(k));
                let j = choose|j: int| 0 <= j < init.len() && init[j].id == k;
                assert(steps[j] == init[j]);
            }
        }
        if or_empty(fold_added_inputs(None, init, branched)).contains_key(steps[last].id) {
            let j = choose|j: int| 0 <= j < init.len() && init[j].id == steps[last].id;
            assert(steps[j] == init[j]);
            assert(steps[j].id != steps[last].id);
        }
        assert forall|j: int| 0 <= j < steps.len() implies (#[trigger] or_empty(
            fold_added_inputs(None, steps, branched),
        ).contains_key(steps[j].id) <==> !inputs_added_for(steps[j], branched).dom().is_empty()) by {
            if j < last {
                assert(steps[j] == init[j]);
            }
        }
        assert forall|j: int|
            0 <= j < steps.len() && !inputs_added_for(steps[j], branched).dom().is_empty() implies #[trigger] or_empty(
            fold_added_inputs(None, steps, branched),
        )[steps[j].id] == inputs_added_for(steps[j], branched) by {
            if j < last {
                assert(steps[j] == init[j]);
            }
        }
    }
}

/// Undoing the inputs a merge added to original steps gives every step its
/// inputs back, node by node and in order. This holds for steps with
/// distinct ids and no delta recorded before, where every step that gained
/// inputs held inputs for each of the nodes it gained them for: a node that
/// gained inputs without holding any keeps an empty list after the undo.
pub proof fn lemma_undo_create_inputs_restores(
    steps: Seq<FlowStep>,
    merged: Seq<FlowStep>,
    undone: Seq<FlowStep>,
    branched: Map<u128, FlowStep>,
)
    requires
        distinct_ids(steps),
        forall|j: int|
            0 <= j < steps.len() && !inputs_added_for(steps[j], branched).dom().is_empty() ==> (opt_list_map(
                (#[trigger] steps[j]).input_ids_by_node_id,
            ) matches Some(m) && inputs_added_for(steps[j], branched).dom().subset_of(m.dom())),
        merged.len() == steps.len(),
        undone.len() == steps.len(),
        forall|j: int| 0 <= j < steps.len() ==> after_adding_inputs(#[trigger] steps[j], merged[j], branched),
        forall|j: int| 0 <= j < steps.len() ==> after_taking_out_inputs(
            #[trigger] merged[j],
            undone[j],
            or_empty(fold_added_inputs(None, steps, branched)),
        ),
    ensures
        forall|j: int| 0 <= j < steps.len() ==> opt_list_map((#[trigger] undone[j]).input_ids_by_node_id) == opt_list_map(
            steps[j].input_ids_by_node_id,
        ),
{
    lemma_fold_added_inputs(steps, branched);
    assert forall|j: int| 0 <= j < steps.len() implies opt_list_map((#[trigger] undone[j]).input_ids_by_node_id)
        == opt_list_map(steps[j].input_ids_by_node_id) by {
        let o = steps[j];
        let d = inputs_added_for(o, branched);
        let rec = or_empty(fold_added_inputs(None, steps, branched));
        assert(after_adding_inputs(steps[j], merged[j], branched));
        assert(after_taking_out_inputs(merged[j], undone[j], rec));
        assert(merged[j].id == o.id);
        if !d.dom().is_empty() {
            let m = opt_list_map(o.input_ids_by_node_id).unwrap();
            let mm = crate::merge_lists::merge_unique_map(m, d);
            assert(rec.contains_key(o.id));
            assert(rec[o.id] == d);
            let b = opt_list_map(branched[o.id].input_ids_by_node_id).unwrap();
            assert forall|k: u128| #[trigger] d.contains_key(k) implies d[k] == seq_without(b[k], m[k].to_set()) by {
                assert(m.contains_key(k));
            }
            assert forall|k: u128| m.contains_key(k) implies #[trigger] lists_without(mm, d)[k] == m[k] by {
                if d.contains_key(k) {
                    let mk = m[k];
                    let dk = d[k];
                    lemma_seq_without_to_set(b[k], mk.to_set());
                    assert forall|i: int| 0 <= i < mk.len() implies !dk.contains(#[trigger] mk[i]) by {
                        if dk.contains(mk[i]) {
                            assert(dk.to_set().contains(mk[i]));
                            assert(mk.to_set().contains(mk[i]));
                        }
                    }
                    lemma_merge_then_without(mk, dk);
                }
            }
            assert(lists_without(mm, d) =~= m);
        } else {
            assert(!rec.contains_key(o.id));
        }
    }
}


/// Recording the removed inputs of steps with distinct ids, from nothing,
/// records for each step exactly its delta, when it has one.
pub proof fn lemma_fold_removed_inputs(
    steps: Seq<FlowStep>,
    deleted: Map<u128, HashMap<u128, HashSet<u128>>>,
    created: Map<u128, HashMap<u128, HashSet<u128>>>,
)
    requires
        distinct_ids(steps),
    ensures
        forall|k: u128| #[trigger] or_empty(fold_removed_inputs(None, steps, deleted, created)).contains_key(k) ==> exists|j: int|
            0 <= j < steps.len() && steps[j].id == k,
        forall|j: int| 0 <= j < steps.len() ==> (#[trigger] or_empty(fold_removed_inputs(None, steps, deleted, created)).contains_key(
            steps[j].id,
        ) <==> !inputs_removed_for(steps[j], deleted, created).dom().is_empty()),
        forall|j: int|
            0 <= j < steps.len() && !inputs_removed_for(steps[j], deleted, created).dom().is_empty() ==> #[trigger] or_empty(
                fold_removed_inputs(None, steps, deleted, created),
            )[steps[j].id] == inputs_removed_for(steps[j], deleted, created),
    decreases steps.len(),
{
    if steps.len() > 0 {
        let init = steps.drop_last();
        assert forall|i: int, j: int| 0 <= i < init.len() && 0 <= j < init.len() && i != j implies #[trigger] init[i].id
            != #[trigger] init[j].id by {
            assert(steps[i].id != steps[j].id);
        }
        lemma_fold_removed_inputs(init, deleted, created);
        let last = steps.len() - 1;
        assert forall|j: int| 0 <= j < last implies steps[j].id != steps[last].id by {
            assert(steps[j].id != steps[last].id);
        }
        assert forall|k: u128| #[trigger] or_empty(fold_removed_inputs(None, steps, deleted, created)).contains_key(k) implies exists|j: int|
            0 <= j < steps.len() && steps[j].id == k by {
            if k != steps[last].id {
                assert(or_empty(fold_removed_inputs(None, init, deleted, created)).contains_key(k));
                let j = choose|j: int| 0 <= j < init.len() && init[j].id == k;
                assert(steps[j] == init[j]);
            }
        }
        if or_empty(fold_removed_inputs(None, init, deleted, created)).contains_key(steps[last].id) {
            let j = choose|j: int| 0 <= j < init.len() && init[j].id == steps[last].id;
            assert(steps[j] == init[j]);
            assert(steps[j].id != steps[last].id);
        }
        assert forall|j: int| 0 <= j < steps.len() implies (#[trigger] or_empty(
            fold_removed_inputs(None, steps, deleted, created),
        ).contains_key(steps[j].id) <==> !inputs_removed_for(steps[j], deleted, created).dom().is_empty()) by {
            if j < last {
                assert(steps[j] == init[j]);
            }
        }
        assert forall|j: int|
            0 <= j < steps.len() && !inputs_removed_for(steps[j], deleted, created).dom().is_empty() implies #[trigger] or_empty(
            fold_removed_inputs(None, steps, deleted, created),
        )[steps[j].id] == inputs_removed_for(steps[j], deleted, created) by {
            if j < last {
                assert(steps[j] == init[j]);
            }
        }
    }
}

/// The inputs of a step, node by node, as sets; none when it holds no map.
pub open spec fn input_sets(fs: FlowStep) -> Option<Map<u128, Set<u128>>> {
    match opt_list_map(fs.input_ids_by_node_id) {
        Some(m) => Some(m.map_values(|s: Seq<u128>| s.to_set())),
        None => None,
    }
}

/// Undoing the inputs a merge took out of original steps gives every step
/// its inputs back, node by node: the same inputs, though those put back
/// come last. This holds for steps with distinct ids and no delta recorded
/// before.
pub proof fn lemma_undo_delete_inputs_restores(
    steps: Seq<FlowStep>,
    removed: Seq<FlowStep>,
    undone: Seq<FlowStep>,
    deleted: Map<u128, HashMap<u128, HashSet<u128>>>,
    created: Map<u128, HashMap<u128, HashSet<u128>>>,
    recorded: Map<u128, Map<u128, Seq<u128>>>,
)
    requires
        distinct_ids(steps),
        removed.len() == steps.len(),
        undone.len() == steps.len(),
        forall|j: int| 0 <= j < steps.len() ==> after_removing_inputs(#[trigger] steps[j], removed[j], deleted, created),
        recorded.dom() == or_empty(fold_removed_inputs(None, steps, deleted, created)).dom(),
        forall|k: u128| #[trigger] recorded.contains_key(k) ==> recorded[k].map_values(|s: Seq<u128>| s.to_set())
            == or_empty(fold_removed_inputs(None, steps, deleted, created))[k],
        forall|j: int| 0 <= j < steps.len() ==> after_putting_back_inputs(#[trigger] removed[j], undone[j], recorded),
    ensures
        forall|j: int| 0 <= j < steps.len() ==> input_sets(#[trigger] undone[j]) == input_sets(steps[j]),
{
    lemma_fold_removed_inputs(steps, deleted, created);
    assert forall|j: int| 0 <= j < steps.len() implies input_sets(#[trigger] undone[j]) == input_sets(steps[j]) by {
        let o = steps[j];
        let d = inputs_removed_for(o, deleted, created);
        let rec = or_empty(fold_removed_inputs(None, steps, deleted, created));
        assert(after_removing_inputs(steps[j], removed[j], deleted, created));
        assert(after_putting_back_inputs(removed[j], undone[j], recorded));
        assert(removed[j].id == o.id);
        if !d.dom().is_empty() {
            assert(rec.contains_key(o.id));
            assert(recorded.contains_key(o.id));
            let m = opt_list_map(o.input_ids_by_node_id).unwrap();
            let r = recorded[o.id];
            assert(r.map_values(|s: Seq<u128>| s.to_set()) == d);
            let mid = lists_minus(m, d);
            let fin = crate::merge_lists::merge_unique_map(mid, r);
            assert forall|k: u128| #[trigger] r.contains_key(k) implies m.contains_key(k) by {
                assert(r.map_values(|s: Seq<u128>| s.to_set()).contains_key(k));
            }
            assert forall|k: u128| #[trigger] fin.contains_key(k) <==> m.contains_key(k) by {}
            assert forall|k: u128| m.contains_key(k) implies #[trigger] fin[k].to_set() == m[k].to_set() by {
                if r.contains_key(k) {
                    assert(r.map_values(|s: Seq<u128>| s.to_set())[k] == d[k]);
                    assert(r[k].to_set() == d[k]);
                    lemma_seq_without_to_set(m[k], d[k]);
                    lemma_merge_unique_to_set(seq_without(m[k], d[k]), r[k]);
                    assert(d[k].subset_of(m[k].to_set()));
                    assert(fin[k].to_set() =~= m[k].to_set());
                }
            }
            assert(fin.map_values(|s: Seq<u128>| s.to_set()) =~= m.map_values(|s: Seq<u128>| s.to_set()));
        } else {
            assert(!rec.contains_key(o.id));
            assert(!recorded.contains_key(o.id));
        }
    }
}


/// The steps a merge keeps of those it loaded are exactly those whose node,
/// flow and own id the branch did not delete: no kept step belongs to a
/// deleted node or flow or was itself deleted, every step that did not is
/// kept, and the kept ones keep their order among the loaded ones.
pub proof fn lemma_deleted_flow_steps_filtered_out(b: &Branch, steps: Seq<FlowStep>)
    ensures
        ({
            let kept = steps.filter(|f: FlowStep| survives(b, f));
            &&& forall|i: int| 0 <= i < kept.len() ==> {
                &&& !opt_set(b.deleted_nodes).contains(#[trigger] kept[i].node_id)
                &&& !opt_set(b.deleted_flows).contains(kept[i].flow_id)
                &&& !opt_set(b.deleted_flow_steps).contains(kept[i].id)
                &&& steps.contains(kept[i])
            }
            &&& forall|j: int|
                0 <= j < steps.len() && !opt_set(b.deleted_nodes).contains(steps[j].node_id) && !opt_set(
                    b.deleted_flows,
                ).contains(steps[j].flow_id) && !opt_set(b.deleted_flow_steps).contains(steps[j].id)
                    ==> kept.contains(#[trigger] steps[j])
            &&& kept.len() <= steps.len()
        }),
{
    let pred = |f: FlowStep| survives(b, f);
    let kept = steps.filter(pred);
    broadcast use vstd::seq_lib::group_filter_ensures;
    assert forall|i: int| 0 <= i < kept.len() implies pred(#[trigger] kept[i]) && steps.contains(kept[i]) by {
        steps.lemma_filter_pred(pred, i);
        assert(kept.contains(kept[i]));
        steps.lemma_filter_contains_rev(pred, kept[i]);
    }
    assert forall|j: int|
        0 <= j < steps.len() && pred(steps[j]) implies kept.contains(#[trigger] steps[j]) by {
        steps.lemma_filter_contains(pred, j);
    }
    steps.lemma_filter_len(pred);
}

} // verus!
