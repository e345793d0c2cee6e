//! Helpers over the standard hash containers.

use std::collections::{HashMap, HashSet};
use std::hash::Hash;
use vstd::prelude::*;
use vstd::std_specs::hash::*;

verus! {

broadcast use vstd::std_specs::hash::group_hash_axioms;

/// All keys of `m`, each once, in no particular order.
pub(crate) fn map_keys<K: Copy + Eq + Hash, V>(m: &HashMap<K, V>) -> (keys: Vec<K>)
    requires
        obeys_key_model::<K>(),
    ensures
        keys@.no_duplicates(),
        keys@.to_set() == m@.dom(),
{
    let ghost all = vstd::std_specs::iter::IteratorSpec::remaining(&spec_keys_iter(m)).unref();
    let mut keys: Vec<K> = Vec::new();
    for k in iter: m.keys()
        invariant
            iter.seq().unref() == all,
            iter.seq().len() == all.len(),
            keys@ == all.take(iter.index()),
    {
        keys.push(*k);
        assert(all.take(iter.index() + 1) == all.take(iter.index()).push(*k));
    }
    assert(all.take(all.len() as int) == all);
    assert(all.no_duplicates()) by {
        let refs = vstd::std_specs::iter::IteratorSpec::remaining(&spec_keys_iter(m));
        assert(forall|i: int| 0 <= i < refs.len() ==> all[i] == *refs[i]);
    }
    keys
}

/// All elements of `m`, each once, in no particular order.
pub(crate) fn set_elements<K: Copy + Eq + Hash>(m: &HashSet<K>) -> (elements: Vec<K>)
    requires
        obeys_key_model::<K>(),
    ensures
        elements@.no_duplicates(),
        elements@.to_set() == m@,
{
    let ghost all = vstd::std_specs::iter::IteratorSpec::remaining(&spec_hash_keys_iter(m)).unref();
    let mut elements: Vec<K> = Vec::new();
    for k in iter: m.iter()
        invariant
            iter.seq().unref() == all,
            iter.seq().len() == all.len(),
            elements@ == all.take(iter.index()),
    {
        elements.push(*k);
        assert(all.take(iter.index() + 1) == all.take(iter.index()).push(*k));
    }
    assert(all.take(all.len() as int) == all);
    assert(all.no_duplicates()) by {
        let refs = vstd::std_specs::iter::IteratorSpec::remaining(&spec_hash_keys_iter(m));
        assert(forall|i: int| 0 <= i < refs.len() ==> all[i] == *refs[i]);
    }
    elements
}

/// One more element of a prefix is one more element of its set.
pub(crate) proof fn lemma_take_to_set<A>(s: Seq<A>, i: int)
    requires
        0 <= i < s.len(),
    ensures
        s.take(i + 1).to_set() == s.take(i).to_set().insert(s[i]),
{
    assert(s.take(i + 1) == s.take(i).push(s[i]));
    let more = s.take(i).push(s[i]);
    assert forall|x: A| more.contains(x) == (s.take(i).contains(x) || x == s[i]) by {
        if s.take(i).contains(x) {
            let j = choose|j: int| 0 <= j < s.take(i).len() && s.take(i)[j] == x;
            assert(more[j] == x);
        }
        if x == s[i] {
            assert(more[i] == x);
        }
    }
    assert(more.to_set() =~= s.take(i).to_set().insert(s[i]));
}

} // verus!
