//! Merging id lists and maps of id lists, keeping each id once, and removing
//! ids from them again.
use std::collections::{HashMap, HashSet};
use crate::ids::{opt_map, map_keys, vec_contains};
use vstd::prelude::*;

verus! {

broadcast use vstd::std_specs::hash::group_hash_axioms;

/// `a` followed by each id of `b` that is not already in what came before it.
pub open spec fn merge_unique_seq(a: Seq<u128>, b: Seq<u128>) -> Seq<u128>
    decreases b.len(),
{
    if b.len() == 0 {
        a
    } else {
        let r = merge_unique_seq(a, b.drop_last());
        if r.contains(b.last()) {
            r
        } else {
            r.push(b.last())
        }
    }
}

/// An optional list merged with another: absent lists take the other as it is.
pub open spec fn opt_merge_unique_seq(a: Option<Seq<u128>>, b: Option<Seq<u128>>) -> Option<Seq<u128>> {
    match (a, b) {
        (_, None) => a,
        (None, Some(b)) => Some(b),
        (Some(a), Some(b)) => Some(merge_unique_seq(a, b)),
    }
}

/// The ids of `s` that are not in `ids`, in their order.
pub open spec fn seq_without(s: Seq<u128>, ids: Set<u128>) -> Seq<u128>
    decreases s.len(),
{
    if s.len() == 0 {
        s
    } else {
        let r = seq_without(s.drop_last(), ids);
        if ids.contains(s.last()) {
            r
        } else {
            r.push(s.last())
        }
    }
}

/// The ids of `s` that are in `ids`, in their order.
pub open spec fn seq_within(s: Seq<u128>, ids: Set<u128>) -> Seq<u128>
    decreases s.len(),
{
    if s.len() == 0 {
        s
    } else {
        let r = seq_within(s.drop_last(), ids);
        if ids.contains(s.last()) {
            r.push(s.last())
        } else {
            r
        }
    }
}

/// The optional view of an optional list.
pub open spec fn opt_seq(o: Option<Vec<u128>>) -> Option<Seq<u128>> {
    match o {
        Some(v) => Some(v@),
        None => None,
    }
}

/// The ids of an optional list as a set.
pub open spec fn opt_seq_set(o: Option<Vec<u128>>) -> Set<u128> {
    match o {
        Some(v) => v@.to_set(),
        None => Set::empty(),
    }
}

/// A merged list holds the ids of both lists.
pub proof fn lemma_merge_unique_to_set(a: Seq<u128>, b: Seq<u128>)
    ensures
        merge_unique_seq(a, b).to_set() == a.to_set() + b.to_set(),
    decreases b.len(),
{
    if b.len() > 0 {
        lemma_merge_unique_to_set(a, b.drop_last());
        let r = merge_unique_seq(a, b.drop_last());
        r.lemma_push_to_set_commute(b.last());
        b.drop_last().lemma_push_to_set_commute(b.last());
        assert(b.drop_last().push(b.last()) =~= b);
        assert(merge_unique_seq(a, b).to_set() =~= a.to_set() + b.to_set());
    }
}

/// A merged list begins with the first list, and a list without repeats stays without.
pub proof fn lemma_merge_unique_shape(a: Seq<u128>, b: Seq<u128>)
    ensures
        merge_unique_seq(a, b).len() >= a.len(),
        merge_unique_seq(a, b).subrange(0, a.len() as int) == a,
        a.no_duplicates() ==> merge_unique_seq(a, b).no_duplicates(),
    decreases b.len(),
{
    if b.len() > 0 {
        lemma_merge_unique_shape(a, b.drop_last());
        let r = merge_unique_seq(a, b.drop_last());
        assert(r.push(b.last()).subrange(0, a.len() as int) =~= r.subrange(0, a.len() as int));
    }
}

/// The ids taken out are gone, the others stay.
pub proof fn lemma_seq_without_to_set(s: Seq<u128>, ids: Set<u128>)
    ensures
        seq_without(s, ids).to_set() == s.to_set() - ids,
        s.no_duplicates() ==> seq_without(s, ids).no_duplicates(),
    decreases s.len(),
{
    if s.len() > 0 {
        lemma_seq_without_to_set(s.drop_last(), ids);
        let r = seq_without(s.drop_last(), ids);
        r.lemma_push_to_set_commute(s.last());
        s.drop_last().lemma_push_to_set_commute(s.last());
        assert(s.drop_last().push(s.last()) =~= s);
        assert(seq_without(s, ids).to_set() =~= s.to_set() - ids);
        if s.no_duplicates() {
            assert(!s.drop_last().contains(s.last()));
            assert(!r.to_set().contains(s.last()));
        }
    }
}

/// Taking out ids none of which are in a list leaves the list as it is.
pub proof fn lemma_seq_without_disjoint(s: Seq<u128>, ids: Set<u128>)
    requires
        forall|i: int| 0 <= i < s.len() ==> !ids.contains(#[trigger] s[i]),
    ensures
        seq_without(s, ids) == s,
    decreases s.len(),
{
    if s.len() > 0 {
        lemma_seq_without_disjoint(s.drop_last(), ids);
        assert(s.drop_last().push(s.last()) =~= s);
    }
}

/// The ids kept are those in the set.
pub proof fn lemma_seq_within_to_set(s: Seq<u128>, ids: Set<u128>)
    ensures
        seq_within(s, ids).to_set() == s.to_set().intersect(ids),
    decreases s.len(),
{
    if s.len() > 0 {
        lemma_seq_within_to_set(s.drop_last(), ids);
        let r = seq_within(s.drop_last(), ids);
        r.lemma_push_to_set_commute(s.last());
        s.drop_last().lemma_push_to_set_commute(s.last());
        assert(s.drop_last().push(s.last()) =~= s);
        assert(seq_within(s, ids).to_set() =~= s.to_set().intersect(ids));
    }
}

/// Taking a list's merged-in ids back out gives the list back, when the
/// merged-in ids were none of its own.
pub proof fn lemma_merge_then_without(a: Seq<u128>, b: Seq<u128>)
    requires
        forall|i: int| 0 <= i < a.len() ==> !b.contains(#[trigger] a[i]),
    ensures
        seq_without(merge_unique_seq(a, b), b.to_set()) == a,
    decreases b.len(),
{
    if b.len() == 0 {
        lemma_seq_without_disjoint(a, b.to_set());
    } else {
        let bd = b.drop_last();
        assert forall|i: int| 0 <= i < a.len() implies !bd.contains(#[trigger] a[i]) by {
            if bd.contains(a[i]) {
                let j = choose|j: int| 0 <= j < bd.len() && bd[j] == a[i];
                assert(b[j] == a[i]);
            }
        }
        lemma_merge_then_without_step(a, b);
    }
}

proof fn lemma_merge_then_without_step(a: Seq<u128>, b: Seq<u128>)
    requires
        b.len() > 0,
        forall|i: int| 0 <= i < a.len() ==> !b.contains(#[trigger] a[i]),
    ensures
        seq_without(merge_unique_seq(a, b), b.to_set()) == a,
    decreases b.len(),
{
    let m = merge_unique_seq(a, b);
    lemma_merge_unique_shape(a, b);
    lemma_merge_unique_to_set(a, b);
    // every id after the first list is one of b's
    assert forall|i: int| a.len() <= i < m.len() implies b.to_set().contains(#[trigger] m[i]) by {
        lemma_merge_tail_from(a, b, i);
    }
    lemma_without_prefix(m, a, b.to_set());
}

proof fn lemma_merge_tail_from(a: Seq<u128>, b: Seq<u128>, i: int)
    requires
        a.len() <= i < merge_unique_seq(a, b).len(),
    ensures
        b.contains(merge_unique_seq(a, b)[i]),
    decreases b.len(),
{
    if b.len() > 0 {
        let r = merge_unique_seq(a, b.drop_last());
        lemma_merge_unique_shape(a, b.drop_last());
        if i < r.len() {
            lemma_merge_tail_from(a, b.drop_last(), i);
            let j = choose|j: int| 0 <= j < b.drop_last().len() && b.drop_last()[j] == r[i];
            assert(b[j] == r[i]);
        } else {
            assert(b[b.len() - 1] == b.last());
        }
    }
}

/// When a list is a prefix none of whose ids are taken out, followed only by
/// ids that are, taking them out leaves the prefix.
proof fn lemma_without_prefix(m: Seq<u128>, a: Seq<u128>, ids: Set<u128>)
    requires
        m.len() >= a.len(),
        m.subrange(0, a.len() as int) == a,
        forall|i: int| 0 <= i < a.len() ==> !ids.contains(#[trigger] a[i]),
        forall|i: int| a.len() <= i < m.len() ==> ids.contains(#[trigger] m[i]),
    ensures
        seq_without(m, ids) == a,
    decreases m.len(),
{
    if m.len() == a.len() {
        assert(m =~= a);
        lemma_seq_without_disjoint(a, ids);
    } else {
        let md = m.drop_last();
        assert(md.subrange(0, a.len() as int) =~= m.subrange(0, a.len() as int));
        lemma_without_prefix(md, a, ids);
    }
}

/// A list merged with another, each id of the other appended once unless
/// already present; an absent list becomes the other.
pub fn merge_unique_list(a: &mut Option<Vec<u128>>, b: Option<Vec<u128>>)
    ensures
        opt_seq(*final(a)) == opt_merge_unique_seq(opt_seq(*old(a)), opt_seq(b)),
{
    match b {
        None => {},
        Some(b) => {
            match a {
                None => {
                    *a = Some(b);
                },
                Some(v) => {
                    let ghost start = v@;
                    let mut i: usize = 0;
                    while i < b.len()
                        invariant
                            i <= b.len(),
                            v@ == merge_unique_seq(start, b@.take(i as int)),
                        decreases b.len() - i,
                    {
                        proof {
                            assert(b@.take(i as int + 1).drop_last() =~= b@.take(i as int));
                        }
                        let x = b[i];
                        if !vec_contains(v, x) {
                            v.push(x);
                        }
                        i = i + 1;
                    }
                    proof {
                        assert(b@.take(b@.len() as int) =~= b@);
                    }
                },
            }
        },
    }
}

/// The ids of `v` that are not in `ids`, in their order.
pub fn list_without(v: &Vec<u128>, ids: &Vec<u128>) -> (r: Vec<u128>)
    ensures
        r@ == seq_without(v@, ids@.to_set()),
{
    let mut r: Vec<u128> = Vec::new();
    let mut i: usize = 0;
    while i < v.len()
        invariant
            i <= v.len(),
            r@ == seq_without(v@.take(i as int), ids@.to_set()),
        decreases v.len() - i,
    {
        proof {
            assert(v@.take(i as int + 1).drop_last() =~= v@.take(i as int));
        }
        if !vec_contains(ids, v[i]) {
            r.push(v[i]);
        }
        i = i + 1;
    }
    proof {
        assert(v@.take(v@.len() as int) =~= v@);
    }
    r
}

/// The ids of `v` that are in the set `ids`, in their order.
pub fn list_within(v: &Vec<u128>, ids: &HashSet<u128>) -> (r: Vec<u128>)
    ensures
        r@ == seq_within(v@, ids@),
{
    let mut r: Vec<u128> = Vec::new();
    let mut i: usize = 0;
    while i < v.len()
        invariant
            i <= v.len(),
            r@ == seq_within(v@.take(i as int), ids@),
        decreases v.len() - i,
    {
        proof {
            assert(v@.take(i as int + 1).drop_last() =~= v@.take(i as int));
        }
        if ids.contains(&v[i]) {
            r.push(v[i]);
        }
        i = i + 1;
    }
    proof {
        assert(v@.take(v@.len() as int) =~= v@);
    }
    r
}

/// A map of id lists viewed as a map of sequences.
pub open spec fn list_map_view(m: Map<u128, Vec<u128>>) -> Map<u128, Seq<u128>> {
    m.map_values(|v: Vec<u128>| v@)
}

/// Two maps of id lists merged key by key: lists under the same key merged
/// with `merge_unique_seq`, other keys taken over.
pub open spec fn merge_unique_map(a: Map<u128, Seq<u128>>, b: Map<u128, Seq<u128>>) -> Map<u128, Seq<u128>> {
    Map::new(
        |k: u128| a.contains_key(k) || b.contains_key(k),
        |k: u128|
            if a.contains_key(k) && b.contains_key(k) {
                merge_unique_seq(a[k], b[k])
            } else if a.contains_key(k) {
                a[k]
            } else {
                b[k]
            },
    )
}

/// The view of an optional map of id lists.
pub open spec fn opt_list_map(o: Option<HashMap<u128, Vec<u128>>>) -> Option<Map<u128, Seq<u128>>> {
    match o {
        Some(m) => Some(list_map_view(m@)),
        None => None,
    }
}

/// An optional map merged with another: absent maps take the other as it is.
pub open spec fn opt_merge_unique_map(
    a: Option<Map<u128, Seq<u128>>>,
    b: Option<Map<u128, Seq<u128>>>,
) -> Option<Map<u128, Seq<u128>>> {
    match (a, b) {
        (_, None) => a,
        (None, Some(b)) => Some(b),
        (Some(a), Some(b)) => Some(merge_unique_map(a, b)),
    }
}

/// A map of id lists merged with another, key by key.
pub fn merge_unique_lists_by_key(a: &mut Option<HashMap<u128, Vec<u128>>>, b: Option<HashMap<u128, Vec<u128>>>)
    ensures
        opt_list_map(*final(a)) == opt_merge_unique_map(opt_list_map(*old(a)), opt_list_map(b)),
{
    match b {
        None => {},
        Some(b) => {
            match a {
                None => {
                    *a = Some(b);
                },
                Some(target) => {
                    let ghost start = list_map_view(target@);
                    let ghost raw = b@;
                    let ghost incoming = list_map_view(b@);
                    let mut b = b;
                    let keys = map_keys(&b);
                    let mut i: usize = 0;
                    while i < keys.len()
                        invariant
                            i <= keys.len(),
                            keys@.to_set() == raw.dom(),
                            incoming == list_map_view(raw),
                            keys@.no_duplicates(),
                            b@ == raw.remove_keys(keys@.take(i as int).to_set()),
                            list_map_view(target@) == merge_unique_map(
                                start,
                                incoming.restrict(keys@.take(i as int).to_set()),
                            ),
                        decreases keys.len() - i,
                    {
                        let k = keys[i];
                        proof {
                            assert(keys@[i as int] == k);
                            assert(!keys@.take(i as int).contains(k));
                            assert(keys@.to_set().contains(k));
                            keys@.take(i as int).lemma_push_to_set_commute(k);
                            assert(keys@.take(i as int + 1) =~= keys@.take(i as int).push(k));
                        }
                        let ghost old_t = list_map_view(target@);
                        let ghost old_r = incoming.restrict(keys@.take(i as int).to_set());
                        let val = b.remove(&k);
                        let val = match val {
                            Some(val) => val,
                            None => {
                                proof {
                                    assert(false);
                                }
                                Vec::new()
                            },
                        };
                        let ghost old_raw_t = target@;
                        let existing = target.remove(&k);
                        match existing {
                            Some(existing) => {
                                let mut merged = Some(existing);
                                merge_unique_list(&mut merged, Some(val));
                                let merged = match merged {
                                    Some(m) => m,
                                    None => Vec::new(),
                                };
                                target.insert(k, merged);
                                proof {
                                    assert(old_raw_t.contains_key(k));
                                    assert(old_t.dom() == old_raw_t.dom());
                                    assert(old_t.contains_key(k));
                                    assert(start.contains_key(k));
                                    assert(merge_unique_map(start, old_r)[k] == start[k]);
                                    assert(list_map_view(target@)[k] == merge_unique_seq(start[k], incoming[k]));
                                }
                            },
                            None => {
                                target.insert(k, val);
                                proof {
                                    assert(!old_raw_t.contains_key(k));
                                    assert(old_t.dom() == old_raw_t.dom());
                                    assert(!start.contains_key(k));
                                }
                            },
                        }
                        proof {
                            let new_r = incoming.restrict(keys@.take(i as int + 1).to_set());
                            assert(new_r =~= old_r.insert(k, incoming[k]));
                            assert(incoming[k] == val@);
                            assert(!old_r.contains_key(k));
                            assert(old_t == merge_unique_map(start, old_r));
                            assert(list_map_view(target@) =~= old_t.insert(k, list_map_view(target@)[k]));
                            assert(b@ =~= raw.remove_keys(keys@.take(i as int + 1).to_set()));
                            assert(list_map_view(target@) =~= merge_unique_map(
                                start,
                                incoming.restrict(keys@.take(i as int + 1).to_set()),
                            ));
                        }
                        i = i + 1;
                    }
                    proof {
                        assert(keys@.take(keys@.len() as int) =~= keys@);
                        assert(incoming.restrict(keys@.to_set()) =~= incoming);
                    }
                },
            }
        },
    }
}

} // verus!
