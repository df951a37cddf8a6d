use vstd::prelude::*;

verus! {

/// Laying a third map over two is the same whichever pair is joined first.
pub broadcast proof fn lemma_union_associative<K, V>(a: Map<K, V>, b: Map<K, V>, c: Map<K, V>)
    ensures
        #[trigger] a.union_prefer_right(b).union_prefer_right(c) == a.union_prefer_right(
            b.union_prefer_right(c),
        ),
{
    assert(a.union_prefer_right(b).union_prefer_right(c) =~= a.union_prefer_right(
        b.union_prefer_right(c),
    ));
}

/// Laying the empty map over a map changes nothing.
pub broadcast proof fn lemma_union_empty<K, V>(a: Map<K, V>)
    ensures
        #[trigger] a.union_prefer_right(Map::empty()) == a,
{
    assert(a.union_prefer_right(Map::empty()) =~= a);
}

/// Laying a map over the empty map gives that map.
pub broadcast proof fn lemma_union_over_empty<K, V>(a: Map<K, V>)
    ensures
        #[trigger] Map::<K, V>::empty().union_prefer_right(a) == a,
{
    assert(Map::<K, V>::empty().union_prefer_right(a) =~= a);
}

/// Laying a map of one entry over a map sets that entry.
pub broadcast proof fn lemma_union_entry<K, V>(a: Map<K, V>, key: K, value: V)
    ensures
        #[trigger] a.union_prefer_right(Map::empty().insert(key, value)) == a.insert(key, value),
{
    assert(a.union_prefer_right(Map::empty().insert(key, value)) =~= a.insert(key, value));
}

} // verus!
