//! Walking the keys of a hash map in the map's own order.
use std::collections::HashMap;
use vstd::prelude::*;
use vstd::std_specs::hash::*;
use vstd::std_specs::iter::IteratorSpec;

verus! {

broadcast use vstd::std_specs::hash::group_hash_axioms;

/// `ks` lists each key of `m` exactly once.
pub open spec fn lists_keys<V>(ks: Seq<u128>, m: Map<u128, V>) -> bool {
    &&& ks.no_duplicates()
    &&& forall|k: u128| m.contains_key(k) <==> #[trigger] ks.contains(k)
}

/// The keys of the map, each once, in the order the map hands them out.
pub fn collect_keys<V>(m: &HashMap<u128, V>) -> (r: Vec<u128>)
    ensures
        lists_keys(r@, m@),
{
    let mut keys: Vec<u128> = Vec::new();
    for k in it: m.keys()
        invariant
            keys@.len() == it.index(),
            forall|i: int| 0 <= i < keys@.len() ==> keys@[i] == *it.seq()[i],
    {
        keys.push(*k);
    }
    proof {
        let ks = spec_keys_iter(m).remaining();
        assert(keys@ =~= ks.unref());
        assert(ks.unref().to_set() == m@.dom());
        assert forall|k: u128| m@.contains_key(k) <==> #[trigger] keys@.contains(k) by {
            if m@.contains_key(k) {
                assert(ks.unref().to_set().contains(k));
            }
            if keys@.contains(k) {
                assert(ks.unref().contains(k));
                assert(ks.unref().to_set().contains(k));
            }
        }
        assert forall|i: int, j: int|
            0 <= i < keys@.len() && 0 <= j < keys@.len() && i != j implies keys@[i] != keys@[j] by {
            assert(ks.no_duplicates());
            assert(ks[i] != ks[j]);
            assert(keys@[i] == *ks[i]);
        }
    }
    keys
}

} // verus!
