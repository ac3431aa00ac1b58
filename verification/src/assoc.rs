//! Association lists: sequences of key and value in which the last entry
//! of a key counts.

use vstd::prelude::*;

verus! {

/// The map that a sequence of entries stands for: later entries win.
pub open spec fn map_of<V>(p: Seq<(Seq<char>, V)>) -> Map<Seq<char>, V>
    decreases p.len(),
{
    if p.len() == 0 {
        Map::empty()
    } else {
        map_of(p.drop_last()).insert(p.last().0, p.last().1)
    }
}

/// A key that no entry holds is not in the map.
pub proof fn lemma_map_of_absent<V>(p: Seq<(Seq<char>, V)>, k: Seq<char>)
    requires
        forall|j: int| 0 <= j < p.len() ==> (#[trigger] p[j]).0 != k,
    ensures
        !map_of(p).dom().contains(k),
    decreases p.len(),
{
    if p.len() > 0 {
        assert(p.last() == p[p.len() - 1]);
        assert forall|j: int| 0 <= j < p.drop_last().len() implies (#[trigger] p.drop_last()[j]).0
            != k by {
            assert(p.drop_last()[j] == p[j]);
        }
        lemma_map_of_absent(p.drop_last(), k);
    }
}

/// The last entry with a key gives the key's value.
pub proof fn lemma_map_of_last<V>(p: Seq<(Seq<char>, V)>, i: int)
    requires
        0 <= i < p.len(),
        forall|j: int| i < j < p.len() ==> (#[trigger] p[j]).0 != p[i].0,
    ensures
        map_of(p).dom().contains(p[i].0),
        map_of(p)[p[i].0] == p[i].1,
    decreases p.len(),
{
    if i < p.len() - 1 {
        assert(p.last() == p[p.len() - 1]);
        assert forall|j: int| i < j < p.drop_last().len() implies (#[trigger] p.drop_last()[j]).0
            != p.drop_last()[i].0 by {
            assert(p.drop_last()[j] == p[j]);
        }
        lemma_map_of_last(p.drop_last(), i);
    }
}

/// A new value in the last entry of a key is an insertion into the map.
pub proof fn lemma_map_of_update<V>(p: Seq<(Seq<char>, V)>, i: int, v: V)
    requires
        0 <= i < p.len(),
        forall|j: int| i < j < p.len() ==> (#[trigger] p[j]).0 != p[i].0,
    ensures
        map_of(p.update(i, (p[i].0, v))) == map_of(p).insert(p[i].0, v),
    decreases p.len(),
{
    let q = p.update(i, (p[i].0, v));
    if i == p.len() - 1 {
        assert(q.drop_last() =~= p.drop_last());
        assert(map_of(q) =~= map_of(p).insert(p[i].0, v));
    } else {
        assert(p.last() == p[p.len() - 1]);
        assert forall|j: int| i < j < p.drop_last().len() implies (#[trigger] p.drop_last()[j]).0
            != p.drop_last()[i].0 by {
            assert(p.drop_last()[j] == p[j]);
        }
        lemma_map_of_update(p.drop_last(), i, v);
        assert(q.drop_last() =~= p.drop_last().update(i, (p[i].0, v)));
        assert(q.last() == p.last());
        assert(map_of(q) =~= map_of(p).insert(p[i].0, v));
    }
}

/// The index of the last entry of `p` with key `k`, or -1.
pub open spec fn last_index_of<V>(p: Seq<(Seq<char>, V)>, k: Seq<char>) -> int
    decreases p.len(),
{
    if p.len() == 0 {
        -1
    } else if p.last().0 == k {
        p.len() - 1
    } else {
        last_index_of(p.drop_last(), k)
    }
}

/// The entries after `k` is given the value `v`.
pub open spec fn put<V>(p: Seq<(Seq<char>, V)>, k: Seq<char>, v: V) -> Seq<(Seq<char>, V)> {
    let i = last_index_of(p, k);
    if 0 <= i < p.len() {
        p.update(i, (k, v))
    } else {
        p.push((k, v))
    }
}

/// The index of the last entry of a key is the one that `last_index_of` gives.
pub proof fn lemma_put_found<V>(p: Seq<(Seq<char>, V)>, k: Seq<char>, v: V, i: int)
    requires
        0 <= i < p.len(),
        p[i].0 == k,
        forall|j: int| i < j < p.len() ==> (#[trigger] p[j]).0 != k,
    ensures
        last_index_of(p, k) == i,
    decreases p.len(),
{
    assert(p.last() == p[p.len() - 1]);
    if i < p.len() - 1 {
        assert forall|j: int| i < j < p.drop_last().len() implies (#[trigger] p.drop_last()[j]).0
            != k by {
            assert(p.drop_last()[j] == p[j]);
        }
        lemma_put_found(p.drop_last(), k, v, i);
    }
}

/// `last_index_of` finds no entry for a key that none holds.
pub proof fn lemma_put_absent<V>(p: Seq<(Seq<char>, V)>, k: Seq<char>, v: V)
    requires
        forall|j: int| 0 <= j < p.len() ==> (#[trigger] p[j]).0 != k,
    ensures
        last_index_of(p, k) == -1,
    decreases p.len(),
{
    if p.len() > 0 {
        assert(p.last() == p[p.len() - 1]);
        assert forall|j: int| 0 <= j < p.drop_last().len() implies (#[trigger] p.drop_last()[j]).0
            != k by {
            assert(p.drop_last()[j] == p[j]);
        }
        lemma_put_absent(p.drop_last(), k, v);
    }
}

/// The map of the entries after a `put` is the map before it with the key inserted.
pub proof fn lemma_map_of_put<V>(p: Seq<(Seq<char>, V)>, k: Seq<char>, v: V)
    ensures
        map_of(put(p, k, v)) == map_of(p).insert(k, v),
{
    let i = last_index_of(p, k);
    lemma_last_index_of(p, k);
    if 0 <= i < p.len() {
        lemma_map_of_update(p, i, v);
    } else {
        assert(put(p, k, v).drop_last() =~= p);
    }
}

/// What `last_index_of` finds.
pub proof fn lemma_last_index_of<V>(p: Seq<(Seq<char>, V)>, k: Seq<char>)
    ensures
        -1 <= last_index_of(p, k) < p.len(),
        last_index_of(p, k) >= 0 ==> p[last_index_of(p, k)].0 == k,
        forall|j: int| last_index_of(p, k) < j < p.len() ==> (#[trigger] p[j]).0 != k,
    decreases p.len(),
{
    if p.len() > 0 {
        assert(p.last() == p[p.len() - 1]);
        if p.last().0 != k {
            lemma_last_index_of(p.drop_last(), k);
            assert forall|j: int| last_index_of(p, k) < j < p.len() implies (#[trigger] p[j]).0
                != k by {
                if j < p.len() - 1 {
                    assert(p.drop_last()[j] == p[j]);
                }
            }
        }
    }
}

} // verus!
