//! Flow steps: the nodes a step of a flow involves, and the inputs and
//! outputs of each node in it.
use std::collections::{HashMap, HashSet};
use crate::branch_update::BranchUpdate;
use crate::ids::{opt_map, map_keys, vec_contains, add_all, lemma_restrict_insert, lemma_take_one_more, single_list, set_to_vec, opt_map_put_all};
use crate::merge_lists::{
    merge_unique_list, merge_unique_lists_by_key, list_without, opt_seq, opt_merge_unique_seq,
    opt_list_map, opt_merge_unique_map, list_map_view, seq_without, opt_seq_set,
};
use crate::errors::NodecosmosError;
use crate::text::{text_concat, text_from};
use vstd::prelude::*;

verus! {

broadcast use vstd::std_specs::hash::group_hash_axioms;

/// A step of a flow. `root_id` is the id of the original branch; a flow step
/// with another `branch_id` belongs to a branch.
pub struct FlowStep {
    pub node_id: u128,
    pub branch_id: u128,
    pub flow_id: u128,
    pub id: u128,
    pub root_id: u128,
    pub node_ids: Option<Vec<u128>>,
    pub input_ids_by_node_id: Option<HashMap<u128, Vec<u128>>>,
    pub output_ids_by_node_id: Option<HashMap<u128, Vec<u128>>>,
}

/// Whether two flow steps are the same step of the same flow and branch.
pub open spec fn same_identity(a: FlowStep, b: FlowStep) -> bool {
    &&& a.node_id == b.node_id
    &&& a.branch_id == b.branch_id
    &&& a.flow_id == b.flow_id
    &&& a.id == b.id
    &&& a.root_id == b.root_id
}

/// The flow step as loaded to update its inputs.
pub type UpdateInputIdsFlowStep = FlowStep;

/// The flow step as loaded to update its nodes.
pub type UpdateNodeIdsFlowStep = FlowStep;

/// The flow step as loaded to update its outputs.
pub type UpdateOutputIdsFlowStep = FlowStep;

/// `m` with the lists under the keys of `ids` rid of the ids listed there.
pub open spec fn lists_without(m: Map<u128, Seq<u128>>, ids: Map<u128, Seq<u128>>) -> Map<u128, Seq<u128>> {
    Map::new(
        |k: u128| m.contains_key(k),
        |k: u128|
            if ids.contains_key(k) {
                seq_without(m[k], ids[k].to_set())
            } else {
                m[k]
            },
    )
}

/// Every list of `m` rid of `id`.
pub open spec fn lists_without_id(m: Map<u128, Seq<u128>>, id: u128) -> Map<u128, Seq<u128>> {
    Map::new(|k: u128| m.contains_key(k), |k: u128| seq_without(m[k], set![id]))
}

/// The entries of `m` whose keys are in `keys`.
pub open spec fn restrict_lists(m: Map<u128, Seq<u128>>, keys: Set<u128>) -> Map<u128, Seq<u128>> {
    m.restrict(keys)
}

/// Ids newly in `new` and ids no longer in `new` compared to `current`, node
/// by node: a node only in `new` has all its ids created, a node only in
/// `current` has all its ids removed, and a node in both has its differences
/// recorded only where there are any.
pub open spec fn spec_ios_created(current: Map<u128, Seq<u128>>, new: Map<u128, Seq<u128>>) -> Map<u128, Set<u128>> {
    Map::new(
        |k: u128|
            new.contains_key(k) && (!current.contains_key(k) || !(new[k].to_set()
                - current[k].to_set()).is_empty()),
        |k: u128|
            if current.contains_key(k) {
                new[k].to_set() - current[k].to_set()
            } else {
                new[k].to_set()
            },
    )
}

/// See `spec_ios_created`.
pub open spec fn spec_ios_removed(current: Map<u128, Seq<u128>>, new: Map<u128, Seq<u128>>) -> Map<u128, Set<u128>> {
    spec_ios_created(new, current)
}

/// A map of id lists with absent taken as empty.
pub open spec fn opt_lists(o: Option<HashMap<u128, Vec<u128>>>) -> Map<u128, Seq<u128>> {
    list_map_view(opt_map(o))
}

/// A map of id sets viewed as a map of sets.
pub open spec fn set_map_view(m: Map<u128, HashSet<u128>>) -> Map<u128, Set<u128>> {
    m.map_values(|s: HashSet<u128>| s@)
}

/// The ids of a list as a set.
pub fn list_to_set(v: &Vec<u128>) -> (s: HashSet<u128>)
    ensures
        s@ == v@.to_set(),
{
    let mut s = HashSet::new();
    add_all(&mut s, v);
    proof {
        assert(s@ =~= v@.to_set());
    }
    s
}

/// The ids of `a` that are not in `b`, as a set.
fn list_difference(a: &Vec<u128>, b: &Vec<u128>) -> (s: HashSet<u128>)
    ensures
        s@ == a@.to_set() - b@.to_set(),
{
    let r = list_without(a, b);
    proof {
        crate::merge_lists::lemma_seq_without_to_set(a@, b@.to_set());
    }
    list_to_set(&r)
}

/// Ids created in `new` compared to `current`, node by node (see `spec_ios_created`).
fn ios_created(current: &HashMap<u128, Vec<u128>>, new: &HashMap<u128, Vec<u128>>) -> (r: HashMap<u128, HashSet<u128>>)
    ensures
        set_map_view(r@) == spec_ios_created(list_map_view(current@), list_map_view(new@)),
{
    let keys = map_keys(new);
    let mut r: HashMap<u128, HashSet<u128>> = HashMap::new();
    let ghost cur = list_map_view(current@);
    let ghost nw = list_map_view(new@);
    let mut i: usize = 0;
    while i < keys.len()
        invariant
            i <= keys.len(),
            keys@.to_set() == new@.dom(),
            keys@.no_duplicates(),
            cur == list_map_view(current@),
            nw == list_map_view(new@),
            set_map_view(r@) == spec_ios_created(cur, nw).restrict(keys@.take(i as int).to_set()),
        decreases keys.len() - i,
    {
        let k = keys[i];
        let ghost target = spec_ios_created(cur, nw);
        proof {
            lemma_take_one_more(keys@, i as int);
            lemma_restrict_insert(target, keys@.take(i as int).to_set(), k);
        }
        let ghost before = r@;
        let new_ids = new.get(&k).unwrap();
        match current.get(&k) {
            Some(cur_ids) => {
                let created = list_difference(new_ids, cur_ids);
                if created.len() > 0 {
                    r.insert(k, created);
                    proof {
                        assert(created@.len() > 0);
                        assert(!created@.is_empty());
                        assert(target.contains_key(k));
                        assert(set_map_view(r@) =~= set_map_view(before).insert(k, target[k]));
                    }
                } else {
                    proof {
                        assert(created@.len() == 0);
                        assert(created@ =~= Set::<u128>::empty());
                        assert(!target.contains_key(k));
                    }
                }
            },
            None => {
                r.insert(k, list_to_set(new_ids));
                proof {
                    assert(target.contains_key(k));
                    assert(set_map_view(r@) =~= set_map_view(before).insert(k, target[k]));
                }
            },
        }
        i = i + 1;
    }
    proof {
        assert(keys@.take(keys@.len() as int) =~= keys@);
        assert(spec_ios_created(cur, nw).restrict(keys@.to_set()) =~= spec_ios_created(cur, nw));
    }
    r
}

impl FlowStep {
    /// Whether the flow step belongs to a branch rather than the original.
    pub fn is_branch(&self) -> (b: bool)
        ensures
            b == (self.branch_id != self.root_id),
    {
        self.branch_id != self.root_id
    }

    /// The inputs (or outputs) created and removed going from `current_db_ios`
    /// to `new_ios`, node by node; an absent map counts as empty.
    pub fn ios_diff(
        current_db_ios: Option<HashMap<u128, Vec<u128>>>,
        new_ios: &Option<HashMap<u128, Vec<u128>>>,
    ) -> (r: (HashMap<u128, HashSet<u128>>, HashMap<u128, HashSet<u128>>))
        ensures
            set_map_view(r.0@) == spec_ios_created(opt_lists(current_db_ios), opt_lists(*new_ios)),
            set_map_view(r.1@) == spec_ios_removed(opt_lists(current_db_ios), opt_lists(*new_ios)),
    {
        let current = match current_db_ios {
            Some(m) => m,
            None => HashMap::new(),
        };
        let empty: HashMap<u128, Vec<u128>> = HashMap::new();
        let new = match new_ios {
            Some(m) => m,
            None => &empty,
        };
        let created = ios_created(&current, new);
        let removed = ios_created(new, &current);
        (created, removed)
    }

    /// Adds nodes to the step, each once.
    pub fn append_nodes(&mut self, ids: &[u128])
        ensures
            opt_seq(final(self).node_ids) == opt_merge_unique_seq(opt_seq(old(self).node_ids), Some(ids@)),
            same_identity(*final(self), *old(self)),
            final(self).input_ids_by_node_id == old(self).input_ids_by_node_id,
            final(self).output_ids_by_node_id == old(self).output_ids_by_node_id,
    {
        let v = slice_to_list(ids);
        merge_unique_list(&mut self.node_ids, Some(v));
    }

    /// Takes nodes out of the step.
    pub fn remove_nodes(&mut self, ids: &[u128])
        ensures
            opt_seq(final(self).node_ids) == match opt_seq(old(self).node_ids) {
                Some(s) => Some(seq_without(s, ids@.to_set())),
                None => None,
            },
            same_identity(*final(self), *old(self)),
            final(self).input_ids_by_node_id == old(self).input_ids_by_node_id,
            final(self).output_ids_by_node_id == old(self).output_ids_by_node_id,
    {
        let v = slice_to_list(ids);
        if let Some(node_ids) = &self.node_ids {
            let kept = list_without(node_ids, &v);
            self.node_ids = Some(kept);
        }
    }

    /// Adds inputs, node by node, each once.
    pub fn append_inputs(&mut self, inputs: &HashMap<u128, Vec<u128>>)
        ensures
            opt_list_map(final(self).input_ids_by_node_id) == opt_merge_unique_map(
                opt_list_map(old(self).input_ids_by_node_id),
                Some(list_map_view(inputs@)),
            ),
            same_identity(*final(self), *old(self)),
            final(self).node_ids == old(self).node_ids,
            final(self).output_ids_by_node_id == old(self).output_ids_by_node_id,
    {
        let copy = copy_lists(inputs);
        merge_unique_lists_by_key(&mut self.input_ids_by_node_id, Some(copy));
    }

    /// Takes inputs out, node by node.
    pub fn remove_inputs(&mut self, ids: &HashMap<u128, Vec<u128>>)
        ensures
            opt_list_map(final(self).input_ids_by_node_id) == match opt_list_map(old(self).input_ids_by_node_id) {
                Some(m) => Some(lists_without(m, list_map_view(ids@))),
                None => None,
            },
            same_identity(*final(self), *old(self)),
            final(self).node_ids == old(self).node_ids,
            final(self).output_ids_by_node_id == old(self).output_ids_by_node_id,
    {
        if let Some(m) = self.input_ids_by_node_id.take() {
            self.input_ids_by_node_id = Some(remove_from_lists(m, ids));
        }
    }

    /// Adds an output of a node, once.
    pub fn push_output(&mut self, node_id: u128, output_id: u128)
        ensures
            opt_list_map(final(self).output_ids_by_node_id) == opt_merge_unique_map(
                opt_list_map(old(self).output_ids_by_node_id),
                Some(map![node_id => seq![output_id]]),
            ),
            same_identity(*final(self), *old(self)),
            final(self).node_ids == old(self).node_ids,
            final(self).input_ids_by_node_id == old(self).input_ids_by_node_id,
    {
        let mut m: HashMap<u128, Vec<u128>> = HashMap::new();
        m.insert(node_id, single_list(output_id));
        proof {
            assert(list_map_view(m@) =~= map![node_id => seq![output_id]]);
        }
        merge_unique_lists_by_key(&mut self.output_ids_by_node_id, Some(m));
    }

    /// Takes an output of a node out.
    pub fn pull_output(&mut self, node_id: u128, output_id: u128)
        ensures
            opt_list_map(final(self).output_ids_by_node_id) == match opt_list_map(old(self).output_ids_by_node_id) {
                Some(m) => Some(lists_without(m, map![node_id => seq![output_id]])),
                None => None,
            },
            same_identity(*final(self), *old(self)),
            final(self).node_ids == old(self).node_ids,
            final(self).input_ids_by_node_id == old(self).input_ids_by_node_id,
    {
        let mut ids: HashMap<u128, Vec<u128>> = HashMap::new();
        ids.insert(node_id, single_list(output_id));
        proof {
            assert(list_map_view(ids@) =~= map![node_id => seq![output_id]]);
        }
        if let Some(m) = self.output_ids_by_node_id.take() {
            self.output_ids_by_node_id = Some(remove_from_lists(m, &ids));
        }
    }

    /// Takes an input out of every node's inputs.
    pub fn pull_input_id(&mut self, input_id: u128)
        ensures
            opt_list_map(final(self).input_ids_by_node_id) == match opt_list_map(old(self).input_ids_by_node_id) {
                Some(m) => Some(lists_without_id(m, input_id)),
                None => None,
            },
            same_identity(*final(self), *old(self)),
            final(self).node_ids == old(self).node_ids,
            final(self).output_ids_by_node_id == old(self).output_ids_by_node_id,
    {
        if let Some(m) = self.input_ids_by_node_id.take() {
            let keys = map_keys(&m);
            let mut ids: HashMap<u128, Vec<u128>> = HashMap::new();
            let mut i: usize = 0;
            while i < keys.len()
                invariant
                    i <= keys.len(),
                    forall|k: u128| #[trigger] ids@.contains_key(k) ==> ids@[k]@ == seq![input_id] && ids@[k]@.to_set() == set![input_id],
                    ids@.dom() == keys@.take(i as int).to_set(),
                decreases keys.len() - i,
            {
                ids.insert(keys[i], single_list(input_id));
                proof {
                    keys@.take(i as int).lemma_push_to_set_commute(keys@[i as int]);
                    assert(keys@.take(i as int + 1) =~= keys@.take(i as int).push(keys@[i as int]));
                    assert(ids@.dom() =~= keys@.take(i as int + 1).to_set());
                }
                i = i + 1;
            }
            let ghost mv = list_map_view(m@);
            proof {
                assert(keys@.take(keys@.len() as int) =~= keys@);
            }
            let r = remove_from_lists(m, &ids);
            proof {
                assert(lists_without(mv, list_map_view(ids@)) =~= lists_without_id(mv, input_id));
            }
            self.input_ids_by_node_id = Some(r);
        }
    }
}

/// A copy of a map of id lists.
pub fn copy_lists(m: &HashMap<u128, Vec<u128>>) -> (r: HashMap<u128, Vec<u128>>)
    ensures
        list_map_view(r@) == list_map_view(m@),
{
    let keys = map_keys(m);
    let mut r: HashMap<u128, Vec<u128>> = HashMap::new();
    let mut i: usize = 0;
    while i < keys.len()
        invariant
            i <= keys.len(),
            keys@.to_set() == m@.dom(),
            keys@.no_duplicates(),
            list_map_view(r@) == list_map_view(m@).restrict(keys@.take(i as int).to_set()),
        decreases keys.len() - i,
    {
        let k = keys[i];
        proof {
            lemma_take_one_more(keys@, i as int);
            lemma_restrict_insert(list_map_view(m@), keys@.take(i as int).to_set(), k);
        }
        let ghost before = r@;
        let v = m.get(&k).unwrap();
        let c = copy_list(v);
        r.insert(k, c);
        proof {
            assert(list_map_view(r@) =~= list_map_view(before).insert(k, list_map_view(m@)[k]));
        }
        i = i + 1;
    }
    proof {
        assert(keys@.take(keys@.len() as int) =~= keys@);
        assert(list_map_view(m@).restrict(keys@.to_set()) =~= list_map_view(m@));
    }
    r
}

/// The ids of a slice as a list.
pub fn slice_to_list(s: &[u128]) -> (r: Vec<u128>)
    ensures
        r@ == s@,
{
    let mut r: Vec<u128> = Vec::new();
    let mut i: usize = 0;
    while i < s.len()
        invariant
            i <= s@.len(),
            r@ == s@.take(i as int),
        decreases s@.len() - i,
    {
        r.push(s[i]);
        proof {
            assert(s@.take(i as int + 1) =~= s@.take(i as int).push(s@[i as int]));
        }
        i = i + 1;
    }
    proof {
        assert(s@.take(s@.len() as int) =~= s@);
    }
    r
}

/// A copy of an id list.
pub fn copy_list(v: &Vec<u128>) -> (r: Vec<u128>)
    ensures
        r@ == v@,
{
    let mut r: Vec<u128> = Vec::new();
    let mut i: usize = 0;
    while i < v.len()
        invariant
            i <= v.len(),
            r@ == v@.take(i as int),
        decreases v.len() - i,
    {
        r.push(v[i]);
        proof {
            assert(v@.take(i as int + 1) =~= v@.take(i as int).push(v@[i as int]));
        }
        i = i + 1;
    }
    proof {
        assert(v@.take(v@.len() as int) =~= v@);
    }
    r
}

/// `m` with the lists under the keys of `ids` rid of the ids listed there.
pub fn remove_from_lists(m: HashMap<u128, Vec<u128>>, ids: &HashMap<u128, Vec<u128>>) -> (r: HashMap<u128, Vec<u128>>)
    ensures
        list_map_view(r@) == lists_without(list_map_view(m@), list_map_view(ids@)),
{
    let ghost mv = list_map_view(m@);
    let ghost iv = list_map_view(ids@);
    let keys = map_keys(&m);
    let mut m = m;
    let mut r: HashMap<u128, Vec<u128>> = HashMap::new();
    let ghost raw = m@;
    let mut i: usize = 0;
    while i < keys.len()
        invariant
            i <= keys.len(),
            keys@.to_set() == raw.dom(),
            keys@.no_duplicates(),
            mv == list_map_view(raw),
            iv == list_map_view(ids@),
            m@ == raw.remove_keys(keys@.take(i as int).to_set()),
            list_map_view(r@) == lists_without(mv, iv).restrict(keys@.take(i as int).to_set()),
        decreases keys.len() - i,
    {
        let k = keys[i];
        proof {
            lemma_take_one_more(keys@, i as int);
            lemma_restrict_insert(lists_without(mv, iv), keys@.take(i as int).to_set(), k);
        }
        let ghost before = r@;
        let v = match m.remove(&k) {
            Some(v) => v,
            None => {
                proof {
                    assert(false);
                }
                Vec::new()
            },
        };
        match ids.get(&k) {
            Some(drop) => {
                let kept = list_without(&v, drop);
                r.insert(k, kept);
            },
            None => {
                r.insert(k, v);
            },
        }
        proof {
            assert(m@ =~= raw.remove_keys(keys@.take(i as int + 1).to_set()));
            assert(list_map_view(r@) =~= list_map_view(before).insert(k, lists_without(mv, iv)[k]));
        }
        i = i + 1;
    }
    proof {
        assert(keys@.take(keys@.len() as int) =~= keys@);
        assert(lists_without(mv, iv).restrict(keys@.to_set()) =~= lists_without(mv, iv));
    }
    r
}


/// The ids held in any list of a map of id lists.
pub open spec fn flat_ids(m: Map<u128, Seq<u128>>) -> Set<u128> {
    Set::new(|x: u128| exists|k: u128| #[trigger] m.contains_key(k) && m[k].contains(x))
}

/// The ids held in any list of an optional map of id lists; none when absent.
pub open spec fn opt_flat_ids(o: Option<HashMap<u128, Vec<u128>>>) -> Set<u128> {
    flat_ids(opt_lists(o))
}

/// Restricting a map of lists to one key more adds the ids of that key's list.
pub proof fn lemma_flat_restrict_insert(m: Map<u128, Seq<u128>>, keys: Set<u128>, k: u128)
    requires
        m.contains_key(k),
    ensures
        flat_ids(m.restrict(keys.insert(k))) == flat_ids(m.restrict(keys)) + m[k].to_set(),
{
    assert forall|x: u128| #[trigger] flat_ids(m.restrict(keys.insert(k))).contains(x) <==> (flat_ids(
        m.restrict(keys),
    ) + m[k].to_set()).contains(x) by {
        if flat_ids(m.restrict(keys.insert(k))).contains(x) {
            let j = choose|j: u128| #[trigger] m.restrict(keys.insert(k)).contains_key(j) && m.restrict(
                keys.insert(k),
            )[j].contains(x);
            if j != k {
                assert(m.restrict(keys).contains_key(j));
            }
        }
        if flat_ids(m.restrict(keys)).contains(x) {
            let j = choose|j: u128| #[trigger] m.restrict(keys).contains_key(j) && m.restrict(keys)[j].contains(x);
            assert(m.restrict(keys.insert(k)).contains_key(j));
        }
        if m[k].to_set().contains(x) {
            assert(m.restrict(keys.insert(k)).contains_key(k));
        }
    }
    assert(flat_ids(m.restrict(keys.insert(k))) =~= flat_ids(m.restrict(keys)) + m[k].to_set());
}

/// The ids held in any list of an optional map of id lists.
pub fn flatten_ids(o: &Option<HashMap<u128, Vec<u128>>>) -> (s: HashSet<u128>)
    ensures
        s@ == opt_flat_ids(*o),
{
    let mut s: HashSet<u128> = HashSet::new();
    match o {
        None => {
            proof {
                assert(opt_flat_ids(*o) =~= Set::<u128>::empty());
            }
            s
        },
        Some(m) => {
            let keys = map_keys(m);
            let ghost mv = list_map_view(m@);
            let mut i: usize = 0;
            while i < keys.len()
                invariant
                    i <= keys.len(),
                    keys@.to_set() == m@.dom(),
                    keys@.no_duplicates(),
                    mv == list_map_view(m@),
                    s@ == flat_ids(mv.restrict(keys@.take(i as int).to_set())),
                decreases keys.len() - i,
            {
                let k = keys[i];
                proof {
                    lemma_take_one_more(keys@, i as int);
                    lemma_flat_restrict_insert(mv, keys@.take(i as int).to_set(), k);
                }
                let ids = m.get(&k).unwrap();
                let ghost before = s@;
                add_all(&mut s, ids);
                proof {
                    assert(s@ =~= before + mv[k].to_set());
                }
                i = i + 1;
            }
            proof {
                assert(keys@.take(keys@.len() as int) =~= keys@);
                assert(mv.restrict(keys@.to_set()) =~= mv);
            }
            s
        },
    }
}

/// The ids of an optional list as a set.
pub fn opt_list_to_set(o: &Option<Vec<u128>>) -> (s: HashSet<u128>)
    ensures
        s@ == opt_seq_set(*o),
{
    match o {
        Some(v) => list_to_set(v),
        None => {
            let s: HashSet<u128> = HashSet::new();
            proof {
                assert(s@ =~= opt_seq_set(*o));
            }
            s
        },
    }
}

/// The ids of `a` not in `b`, as a set.
fn set_difference(a: &HashSet<u128>, b: &HashSet<u128>) -> (r: HashSet<u128>)
    ensures
        r@ == a@ - b@,
{
    let v = set_to_vec(a);
    let mut r: HashSet<u128> = HashSet::new();
    let mut i: usize = 0;
    while i < v.len()
        invariant
            i <= v.len(),
            r@ == v@.take(i as int).to_set() - b@,
        decreases v.len() - i,
    {
        proof {
            v@.take(i as int).lemma_push_to_set_commute(v@[i as int]);
            assert(v@.take(i as int + 1) =~= v@.take(i as int).push(v@[i as int]));
        }
        if !b.contains(&v[i]) {
            r.insert(v[i]);
        }
        proof {
            assert(r@ =~= v@.take(i as int + 1).to_set() - b@);
        }
        i = i + 1;
    }
    proof {
        assert(v@.take(v@.len() as int) =~= v@);
    }
    r
}

/// A map with one entry.
fn single_entry<V>(k: u128, v: V) -> (m: HashMap<u128, V>)
    ensures
        m@ == map![k => v],
{
    let mut m: HashMap<u128, V> = HashMap::new();
    m.insert(k, v);
    proof {
        assert(m@ =~= map![k => v]);
    }
    m
}

/// Whether an update records, for step `id` only, the ids of `ids`.
pub open spec fn records_for_step(m: HashMap<u128, HashSet<u128>>, id: u128, ids: Set<u128>) -> bool {
    m@.dom() == set![id] && m@[id]@ == ids
}

/// Whether an update records, for step `id` only, the per-node ids of `ids`.
pub open spec fn records_ios_for_step(
    m: HashMap<u128, HashMap<u128, HashSet<u128>>>,
    id: u128,
    ids: Map<u128, Set<u128>>,
) -> bool {
    m@.dom() == set![id] && set_map_view(m@[id]@) == ids
}

impl FlowStep {
    /// The nodes added to and removed from the step going from `current` to
    /// this version of it; an absent list holds none.
    pub fn node_ids_diff(&self, current: &FlowStep) -> (r: (HashSet<u128>, HashSet<u128>))
        ensures
            r.0@ == opt_seq_set(self.node_ids) - opt_seq_set(current.node_ids),
            r.1@ == opt_seq_set(current.node_ids) - opt_seq_set(self.node_ids),
    {
        let new_ids = opt_list_to_set(&self.node_ids);
        let current_ids = opt_list_to_set(&current.node_ids);
        let created = set_difference(&new_ids, &current_ids);
        let deleted = set_difference(&current_ids, &new_ids);
        (created, deleted)
    }

    /// The changes a branch records when this version of the step replaces
    /// its nodes (against `current`, the step as stored): the node edited,
    /// and the nodes created in and deleted from the step.
    pub fn update_branch_nodes(&self, current: &FlowStep) -> (r: Vec<BranchUpdate>)
        ensures
            r.len() == 3,
            r[0] == BranchUpdate::EditNode(self.node_id),
            r[1] matches BranchUpdate::CreateFlowStepNodes(m) && records_for_step(
                m,
                self.id,
                opt_seq_set(self.node_ids) - opt_seq_set(current.node_ids),
            ),
            r[2] matches BranchUpdate::DeleteFlowStepNodes(m) && records_for_step(
                m,
                self.id,
                opt_seq_set(current.node_ids) - opt_seq_set(self.node_ids),
            ),
    {
        let (created, deleted) = self.node_ids_diff(current);
        let mut r: Vec<BranchUpdate> = Vec::new();
        r.push(BranchUpdate::EditNode(self.node_id));
        r.push(BranchUpdate::CreateFlowStepNodes(single_entry(self.id, created)));
        r.push(BranchUpdate::DeleteFlowStepNodes(single_entry(self.id, deleted)));
        r
    }

    /// The changes a branch records when this version of the step replaces
    /// its inputs (against `current`, the step as stored): the node edited,
    /// and the inputs created and removed node by node (see `spec_ios_created`).
    /// When `current` is the original's step, its inputs are merged into this
    /// version, which then carries them into the branch.
    pub fn update_branch_inputs(&mut self, current: &FlowStep) -> (r: Vec<BranchUpdate>)
        ensures
            r.len() == 3,
            r[0] == BranchUpdate::EditNode(old(self).node_id),
            r[1] matches BranchUpdate::CreateFlowStepInputs(m) && records_ios_for_step(
                m,
                old(self).id,
                spec_ios_created(opt_lists(current.input_ids_by_node_id), opt_lists(old(self).input_ids_by_node_id)),
            ),
            r[2] matches BranchUpdate::DeleteFlowStepInputs(m) && records_ios_for_step(
                m,
                old(self).id,
                spec_ios_removed(opt_lists(current.input_ids_by_node_id), opt_lists(old(self).input_ids_by_node_id)),
            ),
            opt_list_map(final(self).input_ids_by_node_id) == if current.branch_id == current.root_id {
                opt_merge_unique_map(opt_list_map(old(self).input_ids_by_node_id), opt_list_map(current.input_ids_by_node_id))
            } else {
                opt_list_map(old(self).input_ids_by_node_id)
            },
            same_identity(*final(self), *old(self)),
            final(self).node_ids == old(self).node_ids,
            final(self).output_ids_by_node_id == old(self).output_ids_by_node_id,
    {
        let current_inputs = match &current.input_ids_by_node_id {
            Some(m) => Some(copy_lists(m)),
            None => None,
        };
        proof {
            assert(opt_lists(current_inputs) == opt_lists(current.input_ids_by_node_id));
        }
        let (created, removed) = FlowStep::ios_diff(current_inputs, &self.input_ids_by_node_id);
        let mut r: Vec<BranchUpdate> = Vec::new();
        r.push(BranchUpdate::EditNode(self.node_id));
        r.push(BranchUpdate::CreateFlowStepInputs(single_entry(self.id, created)));
        r.push(BranchUpdate::DeleteFlowStepInputs(single_entry(self.id, removed)));
        if current.branch_id == current.root_id {
            let original = match &current.input_ids_by_node_id {
                Some(m) => Some(copy_lists(m)),
                None => None,
            };
            merge_unique_lists_by_key(&mut self.input_ids_by_node_id, original);
        }
        r
    }

    /// The changes a branch records when this version of the step replaces
    /// its outputs (against `current`, the step as stored), as for inputs.
    pub fn update_branch_outputs(&mut self, current: &FlowStep) -> (r: Vec<BranchUpdate>)
        ensures
            r.len() == 3,
            r[0] == BranchUpdate::EditNode(old(self).node_id),
            r[1] matches BranchUpdate::CreateFlowStepOutputs(m) && records_ios_for_step(
                m,
                old(self).id,
                spec_ios_created(opt_lists(current.output_ids_by_node_id), opt_lists(old(self).output_ids_by_node_id)),
            ),
            r[2] matches BranchUpdate::DeletedFlowStepOutputs(m) && records_ios_for_step(
                m,
                old(self).id,
                spec_ios_removed(opt_lists(current.output_ids_by_node_id), opt_lists(old(self).output_ids_by_node_id)),
            ),
            opt_list_map(final(self).output_ids_by_node_id) == if current.branch_id == current.root_id {
                opt_merge_unique_map(opt_list_map(old(self).output_ids_by_node_id), opt_list_map(current.output_ids_by_node_id))
            } else {
                opt_list_map(old(self).output_ids_by_node_id)
            },
            same_identity(*final(self), *old(self)),
            final(self).node_ids == old(self).node_ids,
            final(self).input_ids_by_node_id == old(self).input_ids_by_node_id,
    {
        let current_outputs = match &current.output_ids_by_node_id {
            Some(m) => Some(copy_lists(m)),
            None => None,
        };
        proof {
            assert(opt_lists(current_outputs) == opt_lists(current.output_ids_by_node_id));
        }
        let (created, removed) = FlowStep::ios_diff(current_outputs, &self.output_ids_by_node_id);
        let mut r: Vec<BranchUpdate> = Vec::new();
        r.push(BranchUpdate::EditNode(self.node_id));
        r.push(BranchUpdate::CreateFlowStepOutputs(single_entry(self.id, created)));
        r.push(BranchUpdate::DeletedFlowStepOutputs(single_entry(self.id, removed)));
        if current.branch_id == current.root_id {
            let original = match &current.output_ids_by_node_id {
                Some(m) => Some(copy_lists(m)),
                None => None,
            };
            merge_unique_lists_by_key(&mut self.output_ids_by_node_id, original);
        }
        r
    }

    /// The inputs this version of the step adds and removes overall, across
    /// all nodes, against `current`: `(added, removed)`.
    pub fn ios_delta(&self, current: &FlowStep) -> (r: (HashSet<u128>, HashSet<u128>))
        ensures
            r.0@ == opt_flat_ids(self.input_ids_by_node_id) - opt_flat_ids(current.input_ids_by_node_id),
            r.1@ == opt_flat_ids(current.input_ids_by_node_id) - opt_flat_ids(self.input_ids_by_node_id),
    {
        let new_ids = flatten_ids(&self.input_ids_by_node_id);
        let current_ids = flatten_ids(&current.input_ids_by_node_id);
        let added = set_difference(&new_ids, &current_ids);
        let removed = set_difference(&current_ids, &new_ids);
        (added, removed)
    }
}


/// The entries of an optional map of lists kept for the nodes of an optional
/// list; none are kept when the list is absent.
pub open spec fn lists_of_nodes(m: Option<Map<u128, Seq<u128>>>, nodes: Set<u128>) -> Option<Map<u128, Seq<u128>>> {
    match m {
        Some(m) => Some(m.restrict(nodes)),
        None => None,
    }
}

/// Keeps only the entries of `m` whose node is in `node_ids`.
fn retain_nodes(m: &mut Option<HashMap<u128, Vec<u128>>>, node_ids: &Option<Vec<u128>>)
    ensures
        opt_list_map(*final(m)) == lists_of_nodes(opt_list_map(*old(m)), opt_seq_set(*node_ids)),
{
    let nodes = opt_list_to_set(node_ids);
    if let Some(mut target) = m.take() {
        let keys = map_keys(&target);
        let ghost raw = target@;
        let mut i: usize = 0;
        while i < keys.len()
            invariant
                i <= keys.len(),
                keys@.to_set() == raw.dom(),
                keys@.no_duplicates(),
                target@ == raw.remove_keys(keys@.take(i as int).to_set() - nodes@),
            decreases keys.len() - i,
        {
            let k = keys[i];
            proof {
                lemma_take_one_more(keys@, i as int);
            }
            if !nodes.contains(&k) {
                target.remove(&k);
            }
            proof {
                assert(target@ =~= raw.remove_keys(keys@.take(i as int + 1).to_set() - nodes@));
            }
            i = i + 1;
        }
        proof {
            assert(keys@.take(keys@.len() as int) =~= keys@);
            assert(list_map_view(target@) =~= list_map_view(raw).restrict(opt_seq_set(*node_ids)));
        }
        *m = Some(target);
    }
}

impl FlowStep {
    /// Drops the outputs recorded for nodes no longer in the step.
    pub fn remove_output_references_from_removed_nodes(&mut self)
        ensures
            opt_list_map(final(self).output_ids_by_node_id) == lists_of_nodes(
                opt_list_map(old(self).output_ids_by_node_id),
                opt_seq_set(old(self).node_ids),
            ),
            same_identity(*final(self), *old(self)),
            final(self).node_ids == old(self).node_ids,
            final(self).input_ids_by_node_id == old(self).input_ids_by_node_id,
    {
        retain_nodes(&mut self.output_ids_by_node_id, &self.node_ids);
    }

    /// Drops the inputs recorded for nodes no longer in the step.
    pub fn remove_input_references_from_removed_nodes(&mut self)
        ensures
            opt_list_map(final(self).input_ids_by_node_id) == lists_of_nodes(
                opt_list_map(old(self).input_ids_by_node_id),
                opt_seq_set(old(self).node_ids),
            ),
            same_identity(*final(self), *old(self)),
            final(self).node_ids == old(self).node_ids,
            final(self).output_ids_by_node_id == old(self).output_ids_by_node_id,
    {
        retain_nodes(&mut self.input_ids_by_node_id, &self.node_ids);
    }

    /// The outputs of the nodes no longer in the step, node by node: these
    /// output records are to be deleted.
    pub fn outputs_of_removed_nodes(&self) -> (r: HashMap<u128, Vec<u128>>)
        ensures
            list_map_view(r@) == opt_lists(self.output_ids_by_node_id).remove_keys(opt_seq_set(self.node_ids)),
    {
        let nodes = opt_list_to_set(&self.node_ids);
        let mut r: HashMap<u128, Vec<u128>> = HashMap::new();
        match &self.output_ids_by_node_id {
            None => {
                proof {
                    assert(list_map_view(r@) =~= opt_lists(self.output_ids_by_node_id).remove_keys(
                        opt_seq_set(self.node_ids),
                    ));
                }
                r
            },
            Some(m) => {
                let keys = map_keys(m);
                let ghost target = list_map_view(m@).remove_keys(nodes@);
                let mut i: usize = 0;
                while i < keys.len()
                    invariant
                        i <= keys.len(),
                        keys@.to_set() == m@.dom(),
                        keys@.no_duplicates(),
                        target == list_map_view(m@).remove_keys(nodes@),
                        list_map_view(r@) == target.restrict(keys@.take(i as int).to_set()),
                    decreases keys.len() - i,
                {
                    let k = keys[i];
                    proof {
                        lemma_take_one_more(keys@, i as int);
                        lemma_restrict_insert(target, keys@.take(i as int).to_set(), k);
                    }
                    let ghost before = r@;
                    if !nodes.contains(&k) {
                        let ids = m.get(&k).unwrap();
                        r.insert(k, copy_list(ids));
                        proof {
                            assert(list_map_view(r@) =~= list_map_view(before).insert(k, target[k]));
                        }
                    }
                    i = i + 1;
                }
                proof {
                    assert(keys@.take(keys@.len() as int) =~= keys@);
                    assert(target.restrict(keys@.to_set()) =~= target);
                }
                r
            },
        }
    }

    /// The outputs to delete with the step: all of them, unless the step
    /// belongs to a branch, whose outputs stay.
    pub fn delete_outputs(&self) -> (r: HashSet<u128>)
        ensures
            r@ == if self.branch_id != self.root_id {
                Set::<u128>::empty()
            } else {
                opt_flat_ids(self.output_ids_by_node_id)
            },
    {
        if self.is_branch() {
            let r: HashSet<u128> = HashSet::new();
            proof {
                assert(r@ =~= Set::<u128>::empty());
            }
            return r;
        }
        flatten_ids(&self.output_ids_by_node_id)
    }

    /// The nodes whose branch copies must exist for a step of a branch: those
    /// it holds inputs or outputs for (none for a step of the original).
    pub fn preserve_flow_step_nodes(&self) -> (r: Vec<u128>)
        ensures
            r@.to_set() == if self.branch_id != self.root_id {
                opt_lists(self.input_ids_by_node_id).dom() + opt_lists(self.output_ids_by_node_id).dom()
            } else {
                Set::<u128>::empty()
            },
    {
        let mut r: Vec<u128> = Vec::new();
        if self.is_branch() {
            if let Some(m) = &self.input_ids_by_node_id {
                let mut keys = map_keys(m);
                r.append(&mut keys);
            }
            let ghost first = r@;
            proof {
                assert(first.to_set() =~= opt_lists(self.input_ids_by_node_id).dom());
            }
            if let Some(m) = &self.output_ids_by_node_id {
                let mut keys = map_keys(m);
                let ghost second = keys@;
                r.append(&mut keys);
                proof {
                    vstd::seq_lib::seq_to_set_distributes_over_add(first, second);
                    assert(second.to_set() == opt_lists(self.output_ids_by_node_id).dom());
                }
            } else {
                proof {
                    assert(opt_lists(self.output_ids_by_node_id).dom() =~= Set::<u128>::empty());
                }
            }
            proof {
                assert(r@.to_set() =~= opt_lists(self.input_ids_by_node_id).dom() + opt_lists(
                    self.output_ids_by_node_id,
                ).dom());
            }
        } else {
            proof {
                assert(r@.to_set() =~= Set::<u128>::empty());
            }
        }
        r
    }

    /// The changes a branch records when a step is created on it: the node
    /// edited and the step created; none for a step of the original.
    pub fn update_branch_with_creation(&self) -> (r: Vec<BranchUpdate>)
        ensures
            self.branch_id != self.root_id ==> r@ == seq![
                BranchUpdate::EditNode(self.node_id),
                BranchUpdate::CreateFlowStep(self.id),
            ],
            self.branch_id == self.root_id ==> r@.len() == 0,
    {
        let mut r: Vec<BranchUpdate> = Vec::new();
        if self.is_branch() {
            r.push(BranchUpdate::EditNode(self.node_id));
            r.push(BranchUpdate::CreateFlowStep(self.id));
            proof {
                assert(r@ =~= seq![BranchUpdate::EditNode(self.node_id), BranchUpdate::CreateFlowStep(self.id)]);
            }
        }
        r
    }

    /// The changes a branch records when a step is deleted on it: the node
    /// edited and the step deleted; none for a step of the original.
    pub fn update_branch_with_deletion(&self) -> (r: Vec<BranchUpdate>)
        ensures
            self.branch_id != self.root_id ==> r@ == seq![
                BranchUpdate::EditNode(self.node_id),
                BranchUpdate::DeleteFlowStep(self.id),
            ],
            self.branch_id == self.root_id ==> r@.len() == 0,
    {
        let mut r: Vec<BranchUpdate> = Vec::new();
        if self.is_branch() {
            r.push(BranchUpdate::EditNode(self.node_id));
            r.push(BranchUpdate::DeleteFlowStep(self.id));
            proof {
                assert(r@ =~= seq![BranchUpdate::EditNode(self.node_id), BranchUpdate::DeleteFlowStep(self.id)]);
            }
        }
        r
    }

    /// Takes in the inputs of the original step: the original's lists come
    /// first, merged with this step's.
    pub fn merge_original_inputs(&mut self, original: &FlowStep)
        ensures
            opt_list_map(final(self).input_ids_by_node_id) == opt_merge_unique_map(
                opt_list_map(original.input_ids_by_node_id),
                opt_list_map(old(self).input_ids_by_node_id),
            ),
            same_identity(*final(self), *old(self)),
            final(self).node_ids == old(self).node_ids,
            final(self).output_ids_by_node_id == old(self).output_ids_by_node_id,
    {
        let mut merged = match &original.input_ids_by_node_id {
            Some(m) => Some(copy_lists(m)),
            None => None,
        };
        let own = self.input_ids_by_node_id.take();
        merge_unique_lists_by_key(&mut merged, own);
        self.input_ids_by_node_id = merged;
    }

    /// Takes in the nodes of the original step: the original's list comes
    /// first, merged with this step's.
    pub fn merge_original_nodes(&mut self, original: &FlowStep)
        ensures
            opt_seq(final(self).node_ids) == opt_merge_unique_seq(opt_seq(original.node_ids), opt_seq(old(self).node_ids)),
            same_identity(*final(self), *old(self)),
            final(self).input_ids_by_node_id == old(self).input_ids_by_node_id,
            final(self).output_ids_by_node_id == old(self).output_ids_by_node_id,
    {
        let mut merged = match &original.node_ids {
            Some(v) => Some(copy_list(v)),
            None => None,
        };
        let own = self.node_ids.take();
        merge_unique_list(&mut merged, own);
        self.node_ids = merged;
    }

    /// Takes in the outputs of the original step: the original's lists come
    /// first, merged with this step's.
    pub fn merge_original_outputs(&mut self, original: &FlowStep)
        ensures
            opt_list_map(final(self).output_ids_by_node_id) == opt_merge_unique_map(
                opt_list_map(original.output_ids_by_node_id),
                opt_list_map(old(self).output_ids_by_node_id),
            ),
            same_identity(*final(self), *old(self)),
            final(self).node_ids == old(self).node_ids,
            final(self).input_ids_by_node_id == old(self).input_ids_by_node_id,
    {
        let mut merged = match &original.output_ids_by_node_id {
            Some(m) => Some(copy_lists(m)),
            None => None,
        };
        let own = self.output_ids_by_node_id.take();
        merge_unique_lists_by_key(&mut merged, own);
        self.output_ids_by_node_id = merged;
    }
}


/// A flow step as a value of sequences and maps.
#[verifier::ext_equal]
pub struct FlowStepView {
    pub node_id: u128,
    pub branch_id: u128,
    pub flow_id: u128,
    pub id: u128,
    pub root_id: u128,
    pub node_ids: Option<Seq<u128>>,
    pub input_ids_by_node_id: Option<Map<u128, Seq<u128>>>,
    pub output_ids_by_node_id: Option<Map<u128, Seq<u128>>>,
}

/// The view of a flow step.
pub open spec fn step_view(f: FlowStep) -> FlowStepView {
    FlowStepView {
        node_id: f.node_id,
        branch_id: f.branch_id,
        flow_id: f.flow_id,
        id: f.id,
        root_id: f.root_id,
        node_ids: opt_seq(f.node_ids),
        input_ids_by_node_id: opt_list_map(f.input_ids_by_node_id),
        output_ids_by_node_id: opt_list_map(f.output_ids_by_node_id),
    }
}

/// A branch's version of a step with the original's nodes, inputs and
/// outputs merged in, the original's first.
pub open spec fn with_original(b: FlowStepView, o: FlowStepView) -> FlowStepView {
    FlowStepView {
        node_ids: opt_merge_unique_seq(o.node_ids, b.node_ids),
        input_ids_by_node_id: opt_merge_unique_map(o.input_ids_by_node_id, b.input_ids_by_node_id),
        output_ids_by_node_id: opt_merge_unique_map(o.output_ids_by_node_id, b.output_ids_by_node_id),
        ..b
    }
}

/// A branch's steps by id, a later step with an id replacing an earlier one.
pub open spec fn group_steps(own: Seq<FlowStep>) -> Map<u128, FlowStepView>
    decreases own.len(),
{
    if own.len() == 0 {
        Map::empty()
    } else {
        group_steps(own.drop_last()).insert(own.last().id, step_view(own.last()))
    }
}

/// The steps a branch sees, by id: its own, each merged with the original's
/// step of the same id, and the original's other steps moved to the branch.
pub open spec fn fold_branched(
    m: Map<u128, FlowStepView>,
    originals: Seq<FlowStep>,
    branch_id: u128,
) -> Map<u128, FlowStepView>
    decreases originals.len(),
{
    if originals.len() == 0 {
        m
    } else {
        let r = fold_branched(m, originals.drop_last(), branch_id);
        let o = originals.last();
        if r.contains_key(o.id) {
            r.insert(o.id, with_original(r[o.id], step_view(o)))
        } else {
            r.insert(o.id, FlowStepView { branch_id: branch_id, ..step_view(o) })
        }
    }
}

/// A map of steps as a map of views.
pub open spec fn steps_view(m: Map<u128, FlowStep>) -> Map<u128, FlowStepView> {
    m.map_values(|f: FlowStep| step_view(f))
}

impl FlowStep {
    /// The steps a branch sees, by id (see `fold_branched`), before they are
    /// put in order of their index.
    pub fn branched(branch_id: u128, own: Vec<FlowStep>, originals: Vec<FlowStep>) -> (r: HashMap<u128, FlowStep>)
        ensures
            steps_view(r@) == fold_branched(group_steps(own@), originals@, branch_id),
    {
        let mut m: HashMap<u128, FlowStep> = HashMap::new();
        let mut rest = own;
        let ghost all = rest@;
        let n = rest.len();
        let mut k: usize = 0;
        while rest.len() > 0
            invariant
                all.len() == n,
                k + rest@.len() == all.len(),
                rest@ == all.subrange(k as int, all.len() as int),
                steps_view(m@) == group_steps(all.take(k as int)),
            decreases rest@.len(),
        {
            let f = rest.remove(0);
            proof {
                assert(f == all[k as int]);
                assert(all.take(k as int + 1).drop_last() =~= all.take(k as int));
                assert(all.take(k as int + 1).last() == all[k as int]);
            }
            let ghost before = m@;
            m.insert(f.id, f);
            proof {
                assert(steps_view(m@) =~= steps_view(before).insert(all[k as int].id, step_view(all[k as int])));
                assert(rest@ =~= all.subrange(k as int + 1, all.len() as int));
            }
            k = k + 1;
        }
        proof {
            assert(all.take(all.len() as int) =~= all);
        }
        let ghost start = steps_view(m@);
        let mut rest = originals;
        let ghost all2 = rest@;
        let n2 = rest.len();
        let mut j: usize = 0;
        while rest.len() > 0
            invariant
                all2.len() == n2,
                j + rest@.len() == all2.len(),
                rest@ == all2.subrange(j as int, all2.len() as int),
                steps_view(m@) == fold_branched(start, all2.take(j as int), branch_id),
            decreases rest@.len(),
        {
            let mut o = rest.remove(0);
            proof {
                assert(o == all2[j as int]);
                assert(all2.take(j as int + 1).drop_last() =~= all2.take(j as int));
                assert(all2.take(j as int + 1).last() == all2[j as int]);
            }
            let ghost before = m@;
            let id = o.id;
            match m.remove(&id) {
                Some(mut b) => {
                    proof {
                        assert(steps_view(before).contains_key(id));
                    }
                    b.merge_original_inputs(&o);
                    b.merge_original_nodes(&o);
                    b.merge_original_outputs(&o);
                    m.insert(id, b);
                    proof {
                        assert(step_view(b) =~= with_original(steps_view(before)[id], step_view(o)));
                        assert(steps_view(m@) =~= steps_view(before).insert(id, with_original(
                            steps_view(before)[id],
                            step_view(o),
                        )));
                    }
                },
                None => {
                    o.branch_id = branch_id;
                    m.insert(id, o);
                    proof {
                        assert(!steps_view(before).contains_key(id));
                        assert(steps_view(m@) =~= steps_view(before).insert(
                            id,
                            FlowStepView { branch_id: branch_id, ..step_view(all2[j as int]) },
                        ));
                    }
                },
            }
            proof {
                assert(rest@ =~= all2.subrange(j as int + 1, all2.len() as int));
            }
            j = j + 1;
        }
        proof {
            assert(all2.take(all2.len() as int) =~= all2);
        }
        m
    }

    /// A new step may not take an index that a step of its flow already
    /// holds: `step_at_index` tells whether one was found there, and
    /// `step_index` is that index as written.
    pub fn validate_no_conflicts(step_at_index: bool, step_index: &str) -> (r: Result<(), NodecosmosError>)
        ensures
            r is Err <==> step_at_index,
            r matches Err(e) ==> (e matches NodecosmosError::Conflict(m) && m@ == "Flow Step on given index "@
                + step_index@ + " already exists"@),
    {
        if step_at_index {
            let m = text_concat(text_concat(text_from("Flow Step on given index "), step_index), " already exists");
            return Err(NodecosmosError::Conflict(m));
        }
        Ok(())
    }

    /// The steps of one flow, in their order.
    pub fn in_flow(steps: Vec<FlowStep>, flow_id: u128) -> (r: Vec<FlowStep>)
        ensures
            r@ == steps@.filter(|f: FlowStep| f.flow_id == flow_id),
    {
        let ghost keep = |f: FlowStep| f.flow_id == flow_id;
        let mut r: Vec<FlowStep> = Vec::new();
        let mut rest = steps;
        let ghost all = rest@;
        let n = rest.len();
        let mut k: usize = 0;
        while rest.len() > 0
            invariant
                all.len() == n,
                k + rest@.len() == all.len(),
                rest@ == all.subrange(k as int, all.len() as int),
                keep == (|f: FlowStep| f.flow_id == flow_id),
                r@ == all.take(k as int).filter(keep),
            decreases rest@.len(),
        {
            let f = rest.remove(0);
            proof {
                assert(f == all[k as int]);
                assert(all.take(k as int + 1).drop_last() =~= all.take(k as int));
                assert(all.take(k as int + 1).last() == all[k as int]);
                reveal(Seq::filter);
            }
            if f.flow_id == flow_id {
                r.push(f);
            }
            proof {
                assert(rest@ =~= all.subrange(k as int + 1, all.len() as int));
            }
            k = k + 1;
        }
        proof {
            assert(all.take(all.len() as int) =~= all);
        }
        r
    }
}


impl FlowStep {
    /// The ios whose branch copies must exist for a step of a branch: those
    /// of its outputs extended by its inputs, a node's inputs taking the
    /// place of its outputs (none for a step of the original).
    pub fn preserve_flow_step_ios(&self) -> (r: HashSet<u128>)
        ensures
            r@ == if self.branch_id != self.root_id {
                flat_ids(opt_lists(self.output_ids_by_node_id).union_prefer_right(opt_lists(self.input_ids_by_node_id)))
            } else {
                Set::<u128>::empty()
            },
    {
        if !self.is_branch() {
            let r: HashSet<u128> = HashSet::new();
            proof {
                assert(r@ =~= Set::<u128>::empty());
            }
            return r;
        }
        let mut merged = match &self.output_ids_by_node_id {
            Some(m) => Some(copy_lists(m)),
            None => None,
        };
        if let Some(inputs) = &self.input_ids_by_node_id {
            opt_map_put_all(&mut merged, copy_lists(inputs));
        }
        proof {
            if self.input_ids_by_node_id is Some {
                assert(opt_lists(merged) =~= opt_lists(self.output_ids_by_node_id).union_prefer_right(
                    opt_lists(self.input_ids_by_node_id),
                ));
            } else {
                assert(opt_lists(merged) =~= opt_lists(self.output_ids_by_node_id).union_prefer_right(
                    opt_lists(self.input_ids_by_node_id),
                ));
            }
        }
        flatten_ids(&merged)
    }
}


/// The ids of a node's list in a map of lists; none when the node has no list.
pub open spec fn ids_of(m: Map<u128, Seq<u128>>, k: u128) -> Set<u128> {
    if m.contains_key(k) {
        m[k].to_set()
    } else {
        Set::empty()
    }
}

/// The ids recorded for a node in a map of id sets; none when absent.
pub open spec fn recorded_of(m: Map<u128, Set<u128>>, k: u128) -> Set<u128> {
    if m.contains_key(k) {
        m[k]
    } else {
        Set::empty()
    }
}

/// The difference of two versions of a step's inputs (or outputs) leads from
/// the one to the other: for every node, the ids of the new version are the
/// current ones with the created ones added and the removed ones taken out,
/// and no id is both created and removed.
pub proof fn lemma_ios_diff_applies(current: Map<u128, Seq<u128>>, new: Map<u128, Seq<u128>>, k: u128)
    ensures
        ids_of(new, k) == ids_of(current, k) + recorded_of(spec_ios_created(current, new), k) - recorded_of(
            spec_ios_removed(current, new),
            k,
        ),
        recorded_of(spec_ios_created(current, new), k).disjoint(recorded_of(spec_ios_removed(current, new), k)),
{
    let c = spec_ios_created(current, new);
    let r = spec_ios_removed(current, new);
    if new.contains_key(k) && current.contains_key(k) {
        if !c.contains_key(k) {
            assert((new[k].to_set() - current[k].to_set()) =~= Set::<u128>::empty()) by {
                if !(new[k].to_set() - current[k].to_set()).is_empty() {
                    assert(c.contains_key(k));
                }
            }
        }
        if !r.contains_key(k) {
            assert((current[k].to_set() - new[k].to_set()) =~= Set::<u128>::empty()) by {
                if !(current[k].to_set() - new[k].to_set()).is_empty() {
                    assert(r.contains_key(k));
                }
            }
        }
    }
    assert(ids_of(new, k) =~= ids_of(current, k) + recorded_of(c, k) - recorded_of(r, k));
}

/// The nodes added to and removed from a step lead from its current node
/// list to the new one, and no node is both added and removed.
pub proof fn lemma_node_ids_diff_applies(current: Set<u128>, new: Set<u128>)
    ensures
        new == current + (new - current) - (current - new),
        (new - current).disjoint(current - new),
{
    assert(new =~= current + (new - current) - (current - new));
}

} // verus!
