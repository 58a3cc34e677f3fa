//! Sums over finite maps.

use vstd::prelude::*;

verus! {

/// The sum of all values of a finite map.
pub open spec fn total(m: Map<u64, u64>) -> nat
    decreases m.dom().len(),
{
    if m.dom().finite() && m.dom().len() > 0 {
        let k = m.dom().choose();
        m[k] as nat + total(m.remove(k))
    } else {
        0
    }
}

/// Any entry can be taken out of a sum.
pub proof fn lemma_total_remove(m: Map<u64, u64>, k: u64)
    requires
        m.dom().finite(),
        m.contains_key(k),
    ensures
        total(m) == m[k] + total(m.remove(k)),
    decreases m.dom().len(),
{
    let c = m.dom().choose();
    assert(m.dom().contains(c));
    if c != k {
        lemma_total_remove(m.remove(c), k);
        lemma_total_remove(m.remove(k), c);
        assert(m.remove(c).remove(k) =~= m.remove(k).remove(c));
    }
}

/// A new entry adds its value to a sum.
pub proof fn lemma_total_insert(m: Map<u64, u64>, k: u64, v: u64)
    requires
        m.dom().finite(),
        !m.contains_key(k),
    ensures
        total(m.insert(k, v)) == v + total(m),
{
    lemma_total_remove(m.insert(k, v), k);
    assert(m.insert(k, v).remove(k) =~= m);
}

/// Replacing an entry replaces its value in a sum.
pub proof fn lemma_total_replace(m: Map<u64, u64>, k: u64, v: u64)
    requires
        m.dom().finite(),
        m.contains_key(k),
    ensures
        total(m.insert(k, v)) == total(m) - m[k] + v,
{
    lemma_total_remove(m, k);
    lemma_total_remove(m.insert(k, v), k);
    assert(m.insert(k, v).remove(k) =~= m.remove(k));
}

/// The sum of a map's values over a sequence of keys.
pub open spec fn total_over(m: Map<u64, u64>, keys: Seq<u64>) -> nat
    decreases keys.len(),
{
    if keys.len() == 0 {
        0
    } else {
        total_over(m, keys.drop_last()) + m[keys.last()] as nat
    }
}

/// Summing over the distinct keys of a map gives its sum.
pub proof fn lemma_total_over(m: Map<u64, u64>, keys: Seq<u64>)
    requires
        m.dom().finite(),
        keys.no_duplicates(),
        keys.to_set() == m.dom(),
    ensures
        total_over(m, keys) == total(m),
    decreases keys.len(),
{
    if keys.len() == 0 {
        assert(keys.to_set() =~= Set::empty());
    } else {
        let last = keys.last();
        assert(keys.to_set().contains(last));
        lemma_total_remove(m, last);
        let rest = keys.drop_last();
        assert(rest.to_set() =~= m.remove(last).dom()) by {
            assert forall|k: u64| rest.to_set().contains(k) <==> m.remove(last).dom().contains(k) by {
                if rest.to_set().contains(k) {
                    let i = choose|i: int| 0 <= i < rest.len() && rest[i] == k;
                    assert(keys[i] == k);
                    assert(keys.to_set().contains(k));
                }
                if m.remove(last).dom().contains(k) {
                    assert(keys.to_set().contains(k));
                    let i = choose|i: int| 0 <= i < keys.len() && keys[i] == k;
                    assert(rest[i] == k);
                }
            }
        }
        lemma_total_over(m.remove(last), rest);
        lemma_total_over_other(m, m.remove(last), rest);
    }
}

/// Sums over keys on which two maps agree are equal.
pub proof fn lemma_total_over_other(m: Map<u64, u64>, n: Map<u64, u64>, keys: Seq<u64>)
    requires
        forall|i: int| 0 <= i < keys.len() ==> m[#[trigger] keys[i]] == n[keys[i]],
    ensures
        total_over(m, keys) == total_over(n, keys),
    decreases keys.len(),
{
    if keys.len() > 0 {
        assert(keys.last() == keys[keys.len() - 1]);
        assert forall|i: int| 0 <= i < keys.drop_last().len() implies m[
            #[trigger] keys.drop_last()[i]
        ] == n[keys.drop_last()[i]] by {
            assert(keys.drop_last()[i] == keys[i]);
        }
        lemma_total_over_other(m, n, keys.drop_last());
    }
}

/// Part of a map sums up to no more than the map.
pub proof fn lemma_total_part(m: Map<u64, u64>, part: Map<u64, u64>)
    requires
        m.dom().finite(),
        part.dom().finite(),
        forall|k: u64| #[trigger] part.contains_key(k) ==> m.contains_key(k) && m[k] == part[k],
    ensures
        total(part) <= total(m),
    decreases part.dom().len(),
{
    if part.dom().len() > 0 {
        let k = part.dom().choose();
        assert(part.contains_key(k));
        lemma_total_remove(part, k);
        lemma_total_remove(m, k);
        lemma_total_part(m.remove(k), part.remove(k));
    }
}

} // verus!
