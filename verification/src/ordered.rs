//! Entries of a map keyed by sequence number, in increasing key order.

use vstd::prelude::*;
use std::collections::BTreeMap;
use vstd::std_specs::iter::IteratorSpec;
use vstd::std_specs::cmp::OrdSpec;

verus! {

/// Whether the keys of `s` increase strictly.
pub open spec fn keys_increasing<V>(s: Seq<(u64, V)>) -> bool {
    forall|i: int, j: int| 0 <= i < j < s.len() ==> #[trigger] s[i].0 < #[trigger] s[j].0
}

/// Whether `s` lists exactly the entries of `m`.
pub open spec fn lists_entries<V>(s: Seq<(u64, V)>, m: Map<u64, V>) -> bool {
    &&& s.len() == m.dom().len()
    &&& forall|i: int| 0 <= i < s.len() ==> m.contains_key(#[trigger] s[i].0) && m[s[i].0] == s[i].1
    &&& forall|k: u64| #[trigger] m.contains_key(k) ==> exists|i: int| 0 <= i < s.len() && s[i].0 == k
}

/// The entries of `m`, keys increasing.
pub fn sorted_entries<V: Copy>(m: &BTreeMap<u64, V>) -> (r: Vec<(u64, V)>)
    ensures
        keys_increasing(r@),
        lists_entries(r@, m@),
{
    broadcast use vstd::std_specs::btree::group_btree_axioms;
    let mut r: Vec<(u64, V)> = Vec::new();
    let ghost whole = vstd::std_specs::btree::spec_btree_map_iter(m).remaining();
    for kv in it: m.iter()
        invariant
            it.seq() == whole,
            r@.len() == it.index(),
            forall|i: int| 0 <= i < it.index() ==> #[trigger] r@[i] == (*whole[i].0, *whole[i].1),
    {
        r.push((*kv.0, *kv.1));
    }
    proof {
        let keys = whole.map_values(|kv: (&u64, &V)| *kv.0);
        assert(vstd::std_specs::btree::increasing_seq(keys));
        assert(vstd::laws_cmp::obeys_cmp::<u64>());
        vstd::std_specs::btree::axiom_increasing_seq_meaning(keys);
        assert forall|i: int, j: int| 0 <= i < j < r@.len() implies #[trigger] r@[i].0 < #[trigger] r@[j].0 by {
            assert(keys[i] == r@[i].0);
            assert(keys[j] == r@[j].0);
            assert(keys[i].cmp_spec(&keys[j]) is Less);
        }
        assert forall|k: u64| #[trigger] m@.contains_key(k) implies exists|i: int| 0 <= i < r@.len() && r@[i].0 == k by {
            assert(whole.contains((&k, &m@[k])));
            let i = choose|i: int| 0 <= i < whole.len() && whole[i] == (&k, &m@[k]);
            assert(r@[i].0 == k);
        }
    }
    r
}

} // verus!
