//! Identifier sets and lists as the branch records hold them.
use std::collections::{HashMap, HashSet};
use vstd::prelude::*;

verus! {

broadcast use vstd::std_specs::hash::group_hash_axioms;

/// The set of ids that an optional id set stands for: nothing when absent.
pub open spec fn opt_set(o: Option<HashSet<u128>>) -> Set<u128> {
    match o {
        Some(s) => s@,
        None => Set::empty(),
    }
}

/// The ids of a set, listed once each in some order.
pub fn set_to_vec(s: &HashSet<u128>) -> (v: Vec<u128>)
    ensures
        v@.to_set() == s@,
        v@.no_duplicates(),
{
    let mut v: Vec<u128> = Vec::new();
    for x in it: s.iter()
        invariant
            v@.len() == it.index(),
            forall|i: int| 0 <= i < it.index() ==> v@[i] == *it.seq()[i],
            forall|i: int| 0 <= i < v@.len() ==> s@.contains(#[trigger] v@[i]),
            forall|x: u128|
                #[trigger] s@.contains(x) ==> v@.contains(x) || exists|j: int|
                    it.index() <= j < it.seq().len() && *it.seq()[j] == x,
    {
        let ghost before = v@;
        v.push(*x);
        proof {
            assert forall|y: u128| #[trigger] s@.contains(y) implies v@.contains(y) || exists|j: int|
                it.index() + 1 <= j < it.seq().len() && *it.seq()[j] == y by {
                if before.contains(y) {
                    let k = choose|k: int| 0 <= k < before.len() && before[k] == y;
                    assert(v@[k] == y);
                } else {
                    let j = choose|j: int| before.len() <= j < it.seq().len() && *it.seq()[j] == y;
                    if j == before.len() {
                        assert(v@[j] == y);
                    }
                }
            }
        }
    }
    v
}

/// The entries that an optional map stands for: none when absent.
pub open spec fn opt_map<V>(o: Option<HashMap<u128, V>>) -> Map<u128, V> {
    match o {
        Some(m) => m@,
        None => Map::empty(),
    }
}

/// Whether an id lies in an optional set.
pub fn opt_contains(o: &Option<HashSet<u128>>, x: u128) -> (b: bool)
    ensures
        b == opt_set(*o).contains(x),
{
    match o {
        Some(s) => s.contains(&x),
        None => false,
    }
}

/// Whether a list holds an id.
pub fn vec_contains(v: &Vec<u128>, x: u128) -> (b: bool)
    ensures
        b == v@.contains(x),
{
    let mut i: usize = 0;
    while i < v.len()
        invariant
            i <= v.len(),
            forall|j: int| 0 <= j < i ==> v@[j] != x,
        decreases v.len() - i,
    {
        if v[i] == x {
            return true;
        }
        i = i + 1;
    }
    false
}

/// Adds every id of `items` to `s`.
pub fn add_all(s: &mut HashSet<u128>, items: &Vec<u128>)
    ensures
        final(s)@ == old(s)@ + items@.to_set(),
{
    let ghost start = s@;
    let mut i: usize = 0;
    while i < items.len()
        invariant
            i <= items.len(),
            s@ == start + items@.take(i as int).to_set(),
        decreases items.len() - i,
    {
        s.insert(items[i]);
        proof {
            assert(items@.take(i as int + 1) =~= items@.take(i as int).push(items@[i as int]));
            items@.take(i as int).lemma_push_to_set_commute(items@[i as int]);
            assert(s@ =~= start + items@.take(i as int + 1).to_set());
        }
        i = i + 1;
    }
    proof {
        assert(items@.take(items@.len() as int) =~= items@);
    }
}

/// Takes every id of `items` out of `s`.
pub fn remove_all(s: &mut HashSet<u128>, items: &Vec<u128>)
    ensures
        final(s)@ == old(s)@ - items@.to_set(),
{
    let ghost start = s@;
    let mut i: usize = 0;
    while i < items.len()
        invariant
            i <= items.len(),
            s@ == start - items@.take(i as int).to_set(),
        decreases items.len() - i,
    {
        s.remove(&items[i]);
        proof {
            assert(items@.take(i as int + 1) =~= items@.take(i as int).push(items@[i as int]));
            items@.take(i as int).lemma_push_to_set_commute(items@[i as int]);
            assert(s@ =~= start - items@.take(i as int + 1).to_set());
        }
        i = i + 1;
    }
    proof {
        assert(items@.take(items@.len() as int) =~= items@);
    }
}

/// Adds every id of `items` to an optional set, creating it if absent.
pub fn opt_add_all(o: &mut Option<HashSet<u128>>, items: &Vec<u128>)
    ensures
        opt_set(*final(o)) == opt_set(*old(o)) + items@.to_set(),
        final(o).is_some(),
{
    let mut s = match o.take() {
        Some(s) => s,
        None => HashSet::new(),
    };
    add_all(&mut s, items);
    *o = Some(s);
}

/// Takes every id of `items` out of an optional set.
pub fn opt_remove_all(o: &mut Option<HashSet<u128>>, items: &Vec<u128>)
    ensures
        opt_set(*final(o)) == opt_set(*old(o)) - items@.to_set(),
        final(o).is_some() == old(o).is_some(),
{
    match o {
        Some(s) => remove_all(s, items),
        None => {
            proof {
                assert(opt_set(*o) =~= opt_set(*o) - items@.to_set());
            }
        },
    }
}

/// The keys of a map, listed once each in some order.
pub fn map_keys<V>(m: &HashMap<u128, V>) -> (v: Vec<u128>)
    ensures
        v@.to_set() == m@.dom(),
        v@.no_duplicates(),
{
    let mut v: Vec<u128> = Vec::new();
    for x in it: m.keys()
        invariant
            v@.len() == it.index(),
            forall|i: int| 0 <= i < it.index() ==> v@[i] == *it.seq()[i],
            forall|i: int| 0 <= i < v@.len() ==> m@.dom().contains(#[trigger] v@[i]),
            forall|x: u128|
                #[trigger] m@.dom().contains(x) ==> v@.contains(x) || exists|j: int|
                    it.index() <= j < it.seq().len() && *it.seq()[j] == x,
    {
        let ghost before = v@;
        v.push(*x);
        proof {
            assert forall|y: u128| #[trigger] m@.dom().contains(y) implies v@.contains(y) || exists|j: int|
                it.index() + 1 <= j < it.seq().len() && *it.seq()[j] == y by {
                if before.contains(y) {
                    let k = choose|k: int| 0 <= k < before.len() && before[k] == y;
                    assert(v@[k] == y);
                } else {
                    let j = choose|j: int| before.len() <= j < it.seq().len() && *it.seq()[j] == y;
                    if j == before.len() {
                        assert(v@[j] == y);
                    }
                }
            }
        }
    }
    v
}

/// Puts every entry of `m` into an optional map, creating it if absent;
/// an entry of `m` replaces one with the same key.
pub fn opt_map_put_all<V>(o: &mut Option<HashMap<u128, V>>, m: HashMap<u128, V>)
    ensures
        opt_map(*final(o)) == opt_map(*old(o)).union_prefer_right(m@),
        final(o).is_some(),
{
    let ghost start = opt_map(*o);
    let ghost incoming = m@;
    let mut target = match o.take() {
        Some(t) => t,
        None => HashMap::new(),
    };
    let mut m = m;
    let keys = map_keys(&m);
    let mut i: usize = 0;
    while i < keys.len()
        invariant
            i <= keys.len(),
            keys@.to_set() == incoming.dom(),
            keys@.no_duplicates(),
            m@ == incoming.remove_keys(keys@.take(i as int).to_set()),
            target@ == start.union_prefer_right(incoming.restrict(keys@.take(i as int).to_set())),
        decreases keys.len() - i,
    {
        let k = keys[i];
        proof {
            assert(keys@.contains(k) ==> incoming.dom().contains(k));
            assert(keys@[i as int] == k);
            assert(!keys@.take(i as int).contains(k));
        }
        let val = m.remove(&k);
        proof {
            assert(keys@.to_set().contains(k));
        }
        match val {
            Some(val) => {
                target.insert(k, val);
            },
            None => {
                assert(false);
            },
        }
        proof {
            assert(keys@.take(i as int + 1) =~= keys@.take(i as int).push(k));
            keys@.take(i as int).lemma_push_to_set_commute(k);
            assert(m@ =~= incoming.remove_keys(keys@.take(i as int + 1).to_set()));
            assert(target@ =~= start.union_prefer_right(
                incoming.restrict(keys@.take(i as int + 1).to_set()),
            ));
        }
        i = i + 1;
    }
    proof {
        assert(keys@.take(keys@.len() as int) =~= keys@);
        assert(incoming.restrict(keys@.to_set()) =~= incoming);
    }
    *o = Some(target);
}

/// Takes out of an optional map the entries whose keys `keys` lists.
pub fn opt_map_remove_keys<V>(o: &mut Option<HashMap<u128, V>>, keys: &Vec<u128>)
    ensures
        opt_map(*final(o)) == opt_map(*old(o)).remove_keys(keys@.to_set()),
        final(o).is_some() == old(o).is_some(),
{
    match o {
        Some(t) => {
            let ghost start = t@;
            let mut i: usize = 0;
            while i < keys.len()
                invariant
                    i <= keys.len(),
                    t@ == start.remove_keys(keys@.take(i as int).to_set()),
                decreases keys.len() - i,
            {
                t.remove(&keys[i]);
                proof {
                    assert(keys@.take(i as int + 1) =~= keys@.take(i as int).push(keys@[i as int]));
                    keys@.take(i as int).lemma_push_to_set_commute(keys@[i as int]);
                    assert(t@ =~= start.remove_keys(keys@.take(i as int + 1).to_set()));
                }
                i = i + 1;
            }
            proof {
                assert(keys@.take(keys@.len() as int) =~= keys@);
            }
        },
        None => {
            proof {
                assert(opt_map(*o) =~= opt_map(*o).remove_keys(keys@.to_set()));
            }
        },
    }
}


/// Restricting a map to one key more adds that key's entry, where it has one.
pub proof fn lemma_restrict_insert<V>(m: Map<u128, V>, keys: Set<u128>, k: u128)
    ensures
        m.contains_key(k) ==> m.restrict(keys.insert(k)) == m.restrict(keys).insert(k, m[k]),
        !m.contains_key(k) ==> m.restrict(keys.insert(k)) == m.restrict(keys),
{
    if m.contains_key(k) {
        assert(m.restrict(keys.insert(k)) =~= m.restrict(keys).insert(k, m[k]));
    } else {
        assert(m.restrict(keys.insert(k)) =~= m.restrict(keys));
    }
}

/// Taking one key more out of a list of distinct keys: the prefix as a set grows by that key.
pub proof fn lemma_take_one_more(keys: Seq<u128>, i: int)
    requires
        0 <= i < keys.len(),
        keys.no_duplicates(),
    ensures
        keys.take(i + 1).to_set() == keys.take(i).to_set().insert(keys[i]),
        !keys.take(i).to_set().contains(keys[i]),
        keys.to_set().contains(keys[i]),
{
    keys.take(i).lemma_push_to_set_commute(keys[i]);
    assert(keys.take(i + 1) =~= keys.take(i).push(keys[i]));
    if keys.take(i).to_set().contains(keys[i]) {
        let j = choose|j: int| 0 <= j < keys.take(i).len() && keys.take(i)[j] == keys[i];
        assert(keys[j] == keys[i]);
    }
    assert(keys.contains(keys[i]));
}

/// A list of one id.
pub fn single_list(x: u128) -> (v: Vec<u128>)
    ensures
        v@ == seq![x],
        v@.to_set() == set![x],
{
    let mut v: Vec<u128> = Vec::new();
    v.push(x);
    proof {
        assert(v@ =~= seq![x]);
        Seq::<u128>::empty().lemma_push_to_set_commute(x);
        assert(Seq::<u128>::empty().push(x) =~= seq![x]);
        assert(Seq::<u128>::empty().to_set() =~= Set::<u128>::empty());
        assert(v@.to_set() =~= set![x]);
    }
    v
}

} // verus!
