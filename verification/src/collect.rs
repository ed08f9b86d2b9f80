//! Walking hash maps and hash sets.
use std::collections::{HashMap, HashSet};
use std::hash::Hash;
use vstd::prelude::*;
use vstd::std_specs::hash::obeys_key_model;
use vstd::std_specs::iter::IteratorSpec;

verus! {

/// The entries of `m` whose values satisfy `p`.
pub open spec fn kept<K, V>(m: Map<K, V>, p: spec_fn(V) -> bool) -> Map<K, V> {
    Map::new(|k: K| m.contains_key(k) && p(m[k]), |k: K| m[k])
}

/// The keys of a map, each once, in no particular order.
pub(crate) fn map_keys<K: Copy, V>(m: &HashMap<K, V>) -> (r: Vec<K>)
    requires
        obeys_key_model::<K>(),
    ensures
        r@.no_duplicates(),
        r@.to_set() == m@.dom(),
        r@.len() == m@.dom().len(),
{
    let mut out: Vec<K> = Vec::new();
    for k in it: m.keys()
        invariant
            it.seq() == m.keys().remaining(),
            out@.len() == it.index(),
            forall|i: int| 0 <= i < out@.len() ==> out@[i] == *it.seq()[i],
    {
        out.push(*k);
    }
    proof {
        let all = m.keys().remaining();
        assert(out@ =~= all.unref());
        assert(out@.no_duplicates()) by {
            assert forall|i: int, j: int|
                0 <= i < out@.len() && 0 <= j < out@.len() && i != j implies out@[i] != out@[j] by {
                assert(all[i] != all[j]);
            }
        }
    }
    out
}

/// The members of a set, each once, in no particular order.
pub(crate) fn set_items<K: Copy>(s: &HashSet<K>) -> (r: Vec<K>)
    requires
        obeys_key_model::<K>(),
    ensures
        r@.no_duplicates(),
        r@.to_set() == s@,
        r@.len() == s@.len(),
{
    let mut out: Vec<K> = Vec::new();
    for k in it: s.iter()
        invariant
            it.seq() == s.iter().remaining(),
            out@.len() == it.index(),
            forall|i: int| 0 <= i < out@.len() ==> out@[i] == *it.seq()[i],
    {
        out.push(*k);
    }
    proof {
        let all = s.iter().remaining();
        assert(out@ =~= all.unref());
        assert(out@.no_duplicates()) by {
            assert forall|i: int, j: int|
                0 <= i < out@.len() && 0 <= j < out@.len() && i != j implies out@[i] != out@[j] by {
                assert(all[i] != all[j]);
            }
        }
    }
    out
}

/// Another set with the same members.
pub(crate) fn copy_set<K: Copy + Eq + Hash>(s: &HashSet<K>) -> (r: HashSet<K>)
    requires
        obeys_key_model::<K>(),
    ensures
        r@ == s@,
{
    let items = set_items(s);
    let mut out: HashSet<K> = HashSet::new();
    let n = items.len();
    let mut i: usize = 0;
    while i < n
        invariant
            0 <= i <= n == items@.len(),
            obeys_key_model::<K>(),
            out@ == items@.take(i as int).to_set(),
        decreases n - i,
    {
        proof {
            assert(items@.take(i as int + 1) == items@.take(i as int).push(items@[i as int]));
            items@.take(i as int).lemma_push_to_set_commute(items@[i as int]);
        }
        out.insert(items[i]);
        i += 1;
    }
    assert(items@.take(n as int) == items@);
    out
}

/// Takes some keys out of a map.
pub(crate) fn remove_keys<K: Copy + Eq + Hash, V>(m: &mut HashMap<K, V>, doomed: &Vec<K>)
    requires
        obeys_key_model::<K>(),
    ensures
        final(m)@ == old(m)@.remove_keys(doomed@.to_set()),
{
    let n = doomed.len();
    let mut i: usize = 0;
    assert(m@ =~= old(m)@.remove_keys(doomed@.take(0).to_set()));
    while i < n
        invariant
            0 <= i <= n == doomed@.len(),
            obeys_key_model::<K>(),
            m@ == old(m)@.remove_keys(doomed@.take(i as int).to_set()),
        decreases n - i,
    {
        let ghost before = m@;
        m.remove(&doomed[i]);
        proof {
            assert(doomed@.take(i as int + 1) == doomed@.take(i as int).push(doomed@[i as int]));
            doomed@.take(i as int).lemma_push_to_set_commute(doomed@[i as int]);
            assert(m@ =~= before.remove(doomed@[i as int]));
            assert(m@ =~= old(m)@.remove_keys(doomed@.take(i as int + 1).to_set()));
        }
        i += 1;
    }
    assert(doomed@.take(n as int) == doomed@);
}

/// Keeps the entries of a map whose values satisfy `p`.
pub(crate) fn retain_values<K: Copy + Eq + Hash, V, F: Fn(&V) -> bool>(
    m: &mut HashMap<K, V>,
    keep: F,
    Ghost(p): Ghost<spec_fn(V) -> bool>,
)
    requires
        obeys_key_model::<K>(),
        forall|v: V| #[trigger] keep.requires((&v,)),
        forall|v: V, r: bool| #[trigger] keep.ensures((&v,), r) ==> r == p(v),
    ensures
        final(m)@ == kept(old(m)@, p),
{
    let keys = map_keys(m);
    let n = keys.len();
    let mut doomed: Vec<K> = Vec::new();
    let mut i: usize = 0;
    while i < n
        invariant
            0 <= i <= n == keys@.len(),
            obeys_key_model::<K>(),
            keys@.to_set() == m@.dom(),
            m@ == old(m)@,
            forall|v: V| #[trigger] keep.requires((&v,)),
            forall|v: V, r: bool| #[trigger] keep.ensures((&v,), r) ==> r == p(v),
            forall|k: K| #[trigger]
                doomed@.contains(k) <==> keys@.take(i as int).contains(k) && !p(m@[k]),
        decreases n - i,
    {
        let key = keys[i];
        let ghost before = doomed@;
        assert(keys@.to_set().contains(key));
        if let Some(v) = m.get(&key) {
            if !keep(v) {
                doomed.push(key);
            }
        }
        proof {
            let now = keys@.take(i as int + 1);
            let earlier = keys@.take(i as int);
            assert(now == earlier.push(key));
            assert forall|k: K| #[trigger]
                doomed@.contains(k) <==> now.contains(k) && !p(m@[k]) by {
                lemma_push_contains(earlier, key, k);
                lemma_push_contains(before, key, k);
            }
        }
        i += 1;
    }
    remove_keys(m, &doomed);
    proof {
        assert(keys@.take(n as int) == keys@);
        assert forall|k: K| m@.contains_key(k) == kept(old(m)@, p).contains_key(k) by {
            assert(keys@.to_set().contains(k) == keys@.contains(k));
            assert(doomed@.to_set().contains(k) == doomed@.contains(k));
        }
        assert(m@ =~= kept(old(m)@, p));
    }
}

/// What a longer list holds.
pub(crate) proof fn lemma_push_contains<K>(s: Seq<K>, last: K, k: K)
    ensures
        s.push(last).contains(k) == (s.contains(k) || k == last),
{
    if s.contains(k) {
        let i = choose|i: int| 0 <= i < s.len() && s[i] == k;
        assert(s.push(last)[i] == k);
    }
    if k == last {
        assert(s.push(last)[s.len() as int] == k);
    }
    if s.push(last).contains(k) && k != last {
        let i = choose|i: int| 0 <= i < s.push(last).len() && s.push(last)[i] == k;
        assert(s[i] == k);
    }
}

/// What is kept is exactly what satisfies the condition, unchanged.
pub proof fn law_kept<K, V>(m: Map<K, V>, p: spec_fn(V) -> bool, k: K)
    ensures
        kept(m, p).contains_key(k) <==> m.contains_key(k) && p(m[k]),
        kept(m, p).contains_key(k) ==> kept(m, p)[k] == m[k],
{
}

} // verus!
