//! Association lists and the finite maps they denote.

use vstd::prelude::*;

verus! {

/// The first components are pairwise distinct: each key occurs at most once.
pub open spec fn keys_unique<K, V>(rows: Seq<(K, V)>) -> bool {
    forall|i: int, j: int| 0 <= i < j < rows.len() ==> rows[i].0 != rows[j].0
}

/// The finite map an association list denotes; a later entry wins.
pub open spec fn assoc_map<K, V>(rows: Seq<(K, V)>) -> Map<K, V>
    decreases rows.len(),
{
    if rows.len() == 0 {
        Map::empty()
    } else {
        assoc_map(rows.drop_last()).insert(rows.last().0, rows.last().1)
    }
}

/// A key is in the denoted map exactly when some entry carries it.
pub proof fn lemma_assoc_map_domain<K, V>(rows: Seq<(K, V)>, k: K)
    ensures
        assoc_map(rows).contains_key(k) <==> exists|i: int| 0 <= i < rows.len() && rows[i].0 == k,
    decreases rows.len(),
{
    if rows.len() > 0 {
        lemma_assoc_map_domain(rows.drop_last(), k);
        if rows.last().0 == k {
            assert(rows[rows.len() - 1].0 == k);
        } else if assoc_map(rows).contains_key(k) {
            let i = choose|i: int| 0 <= i < rows.drop_last().len() && rows.drop_last()[i].0 == k;
            assert(rows[i].0 == k);
        } else {
            assert forall|i: int| 0 <= i < rows.len() implies rows[i].0 != k by {
                if i < rows.len() - 1 {
                    assert(rows.drop_last()[i] == rows[i]);
                }
            }
        }
    }
}

/// With pairwise-distinct keys, the denoted map sends each entry's key to
/// that entry's value.
pub proof fn lemma_assoc_map_index<K, V>(rows: Seq<(K, V)>, i: int)
    requires
        keys_unique(rows),
        0 <= i < rows.len(),
    ensures
        assoc_map(rows).contains_key(rows[i].0),
        assoc_map(rows)[rows[i].0] == rows[i].1,
    decreases rows.len(),
{
    if i < rows.len() - 1 {
        assert forall|x: int, y: int|
            0 <= x < y < rows.drop_last().len() implies rows.drop_last()[x].0
            != rows.drop_last()[y].0 by {
            assert(rows.drop_last()[x] == rows[x]);
            assert(rows.drop_last()[y] == rows[y]);
        }
        lemma_assoc_map_index(rows.drop_last(), i);
        assert(rows.drop_last()[i] == rows[i]);
        assert(rows.last().0 != rows[i].0);
    }
}

} // verus!
