//! Walking ordered maps.

use std::collections::BTreeMap;

use vstd::prelude::*;
use vstd::std_specs::cmp::OrdSpec;
use vstd::std_specs::iter::IteratorSpec;

verus! {

/// Whether keys ascend.
pub open spec fn ascending(keys: Seq<u64>) -> bool {
    forall|i: int, j: int| 0 <= i < j < keys.len() ==> #[trigger] keys[i] < #[trigger] keys[j]
}

proof fn lemma_increasing(keys: Seq<u64>)
    requires
        vstd::std_specs::btree::increasing_seq(keys),
    ensures
        ascending(keys),
{
    broadcast use vstd::std_specs::btree::axiom_increasing_seq_meaning;

    assert(vstd::laws_cmp::obeys_cmp::<u64>());
    assert forall|i: int, j: int| 0 <= i < j < keys.len() implies #[trigger] keys[i]
        < #[trigger] keys[j] by {
        assert(keys[i].cmp_spec(&keys[j]) is Less);
    }
}

/// The keys of a map, each once, in ascending order.
pub fn keys_of<V>(m: &BTreeMap<u64, V>) -> (result: Vec<u64>)
    ensures
        result@.no_duplicates(),
        result@.to_set() == m@.dom(),
        ascending(result@),
{
    let pairs = m.iter();
    let ghost seen = pairs.remaining();
    let ghost keys = seen.map_values(|pair: (&u64, &V)| *pair.0);
    proof {
        lemma_increasing(keys);
        assert forall|k: u64| m@.contains_key(k) implies keys.contains(k) by {
            assert(seen.contains((&k, &m@[k])));
            let at = choose|i: int| 0 <= i < seen.len() && seen[i] == (&k, &m@[k]);
            assert(keys[at] == k);
        }
        assert(keys.to_set() =~= m@.dom());
    }
    let mut result: Vec<u64> = Vec::new();
    for pair in it: pairs
        invariant
            it.seq() == seen,
            keys == seen.map_values(|pair: (&u64, &V)| *pair.0),
            result@ == keys.take(it.index()),
    {
        assert(pair == seen[it.index() as int]);
        result.push(*pair.0);
        assert(result@ =~= keys.take(it.index() + 1));
    }
    assert(result@ =~= keys);
    result
}

} // verus!
