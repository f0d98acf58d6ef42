//! Association-list maps keyed by byte strings: the spec-level machinery
//! shared by the disk-cache model and the in-process memory cache.

use vstd::prelude::*;

verus! {

/// The map an association list denotes; later entries override earlier ones.
pub open spec fn amap_of<V>(pairs: Seq<(Seq<u8>, V)>) -> Map<Seq<u8>, V>
    decreases pairs.len(),
{
    if pairs.len() == 0 {
        Map::empty()
    } else {
        amap_of(pairs.drop_last()).insert(pairs.last().0, pairs.last().1)
    }
}

/// No two entries share a key.
pub open spec fn akeys_unique<V>(pairs: Seq<(Seq<u8>, V)>) -> bool {
    forall|i: int, j: int| 0 <= i < j < pairs.len() ==> (#[trigger] pairs[i]).0 != (
    #[trigger] pairs[j]).0
}

pub proof fn lemma_akeys_unique_drop_last<V>(pairs: Seq<(Seq<u8>, V)>)
    requires
        akeys_unique(pairs),
        pairs.len() > 0,
    ensures
        akeys_unique(pairs.drop_last()),
{
    assert forall|a: int, b: int| 0 <= a < b < pairs.drop_last().len() implies (
    #[trigger] pairs.drop_last()[a]).0 != (#[trigger] pairs.drop_last()[b]).0 by {
        assert(pairs.drop_last()[a] == pairs[a]);
        assert(pairs.drop_last()[b] == pairs[b]);
    }
}

pub proof fn lemma_amap_of_contains<V>(pairs: Seq<(Seq<u8>, V)>, k: Seq<u8>)
    ensures
        amap_of(pairs).contains_key(k) == exists|i: int|
            0 <= i < pairs.len() && (#[trigger] pairs[i]).0 == k,
    decreases pairs.len(),
{
    if pairs.len() > 0 {
        lemma_amap_of_contains(pairs.drop_last(), k);
        if amap_of(pairs).contains_key(k) {
            if pairs.last().0 == k {
                assert(pairs[pairs.len() - 1].0 == k);
            } else {
                let i = choose|i: int|
                    0 <= i < pairs.drop_last().len() && (#[trigger] pairs.drop_last()[i]).0 == k;
                assert(pairs[i].0 == k);
            }
        } else {
            assert forall|i: int| 0 <= i < pairs.len() implies (#[trigger] pairs[i]).0 != k by {
                if i < pairs.len() - 1 {
                    assert(pairs.drop_last()[i] == pairs[i]);
                }
            }
        }
    }
}

pub proof fn lemma_amap_of_index<V>(pairs: Seq<(Seq<u8>, V)>, i: int)
    requires
        akeys_unique(pairs),
        0 <= i < pairs.len(),
    ensures
        amap_of(pairs).contains_key(pairs[i].0),
        amap_of(pairs)[pairs[i].0] == pairs[i].1,
    decreases pairs.len(),
{
    lemma_amap_of_contains(pairs, pairs[i].0);
    if i < pairs.len() - 1 {
        assert(pairs.drop_last()[i] == pairs[i]);
        lemma_akeys_unique_drop_last(pairs);
        lemma_amap_of_index(pairs.drop_last(), i);
        assert(pairs.last().0 != pairs[i].0);
    }
}

pub proof fn lemma_amap_of_remove<V>(pairs: Seq<(Seq<u8>, V)>, i: int)
    requires
        akeys_unique(pairs),
        0 <= i < pairs.len(),
    ensures
        amap_of(pairs.remove(i)) == amap_of(pairs).remove(pairs[i].0),
    decreases pairs.len(),
{
    let k = pairs[i].0;
    if i == pairs.len() - 1 {
        assert(pairs.remove(i) =~= pairs.drop_last());
        lemma_amap_of_contains(pairs.drop_last(), k);
        assert forall|j: int| 0 <= j < pairs.drop_last().len() implies (
        #[trigger] pairs.drop_last()[j]).0 != k by {
            assert(pairs.drop_last()[j] == pairs[j]);
        }
        assert(!amap_of(pairs.drop_last()).contains_key(k));
        assert(amap_of(pairs.drop_last()) =~= amap_of(pairs).remove(k));
    } else {
        lemma_akeys_unique_drop_last(pairs);
        assert(pairs.drop_last()[i] == pairs[i]);
        lemma_amap_of_remove(pairs.drop_last(), i);
        assert(pairs.remove(i).drop_last() =~= pairs.drop_last().remove(i));
        assert(pairs.remove(i).last() == pairs.last());
        assert(pairs.last().0 != k);
        assert(amap_of(pairs.remove(i)) =~= amap_of(pairs).remove(k));
    }
}

/// Removing an entry keeps the keys unique, and its key is gone from the
/// remainder.
pub proof fn lemma_akeys_unique_remove<V>(pairs: Seq<(Seq<u8>, V)>, i: int)
    requires
        akeys_unique(pairs),
        0 <= i < pairs.len(),
    ensures
        akeys_unique(pairs.remove(i)),
        forall|j: int|
            0 <= j < pairs.remove(i).len() ==> (#[trigger] pairs.remove(i)[j]).0 != pairs[i].0,
{
    let p = pairs.remove(i);
    assert forall|a: int, b: int| 0 <= a < b < p.len() implies (#[trigger] p[a]).0 != (
    #[trigger] p[b]).0 by {
        let a0 = if a < i {
            a
        } else {
            a + 1
        };
        let b0 = if b < i {
            b
        } else {
            b + 1
        };
        assert(p[a] == pairs[a0]);
        assert(p[b] == pairs[b0]);
    }
    assert forall|j: int| 0 <= j < p.len() implies (#[trigger] p[j]).0 != pairs[i].0 by {
        let j0 = if j < i {
            j
        } else {
            j + 1
        };
        assert(p[j] == pairs[j0]);
    }
}

/// With unique keys the map has exactly one entry per pair.
pub proof fn lemma_amap_of_len<V>(pairs: Seq<(Seq<u8>, V)>)
    requires
        akeys_unique(pairs),
    ensures
        amap_of(pairs).dom().finite(),
        amap_of(pairs).len() == pairs.len(),
    decreases pairs.len(),
{
    if pairs.len() == 0 {
        assert(amap_of(pairs).dom() =~= Set::<Seq<u8>>::empty());
    } else {
        lemma_akeys_unique_drop_last(pairs);
        lemma_amap_of_len(pairs.drop_last());
        lemma_amap_of_contains(pairs.drop_last(), pairs.last().0);
        assert forall|j: int| 0 <= j < pairs.drop_last().len() implies (
        #[trigger] pairs.drop_last()[j]).0 != pairs.last().0 by {
            assert(pairs.drop_last()[j] == pairs[j]);
        }
        assert(!amap_of(pairs.drop_last()).contains_key(pairs.last().0));
    }
}

/// Uniqueness is kept when an absent key is pushed.
pub proof fn lemma_akeys_unique_push<V>(pairs: Seq<(Seq<u8>, V)>, p: (Seq<u8>, V))
    requires
        akeys_unique(pairs),
        forall|j: int| 0 <= j < pairs.len() ==> (#[trigger] pairs[j]).0 != p.0,
    ensures
        akeys_unique(pairs.push(p)),
        amap_of(pairs.push(p)) == amap_of(pairs).insert(p.0, p.1),
{
    let q = pairs.push(p);
    assert forall|a: int, b: int| 0 <= a < b < q.len() implies (#[trigger] q[a]).0 != (
    #[trigger] q[b]).0 by {
        if b == q.len() - 1 {
            assert(q[a] == pairs[a]);
        } else {
            assert(q[a] == pairs[a]);
            assert(q[b] == pairs[b]);
        }
    }
    assert(q.drop_last() =~= pairs);
}

} // verus!
