//! Association sequences: a sequence of key-value pairs read as a map in
//! which a later pair for the same key wins. The variable map, the extension
//! rule table and the debouncer state are all such sequences.

use vstd::prelude::*;

verus! {

/// Folds a pair sequence into a map; a later pair for the same key wins.
pub open spec fn fold_pairs<K, V>(s: Seq<(K, V)>) -> Map<K, V>
    decreases s.len(),
{
    if s.len() == 0 {
        Map::empty()
    } else {
        fold_pairs(s.drop_last()).insert(s.last().0, s.last().1)
    }
}

/// The value of the last pair carrying `k`, if any.
pub open spec fn lookup_last<K, V>(s: Seq<(K, V)>, k: K) -> Option<V>
    decreases s.len(),
{
    if s.len() == 0 {
        None
    } else if s.last().0 == k {
        Some(s.last().1)
    } else {
        lookup_last(s.drop_last(), k)
    }
}

/// Scanning for the last pair with a given key reads the folded map.
pub proof fn lemma_fold_pairs_is_lookup<K, V>(s: Seq<(K, V)>, k: K)
    ensures
        fold_pairs(s).contains_key(k) <==> lookup_last(s, k) is Some,
        lookup_last(s, k) matches Some(v) ==> fold_pairs(s)[k] == v,
    decreases s.len(),
{
    if s.len() > 0 && s.last().0 != k {
        lemma_fold_pairs_is_lookup(s.drop_last(), k);
    }
}

/// A key is in the folded map exactly when some pair carries it.
pub proof fn lemma_fold_pairs_contains<K, V>(s: Seq<(K, V)>, k: K)
    ensures
        fold_pairs(s).contains_key(k) <==> exists|i: int| 0 <= i < s.len() && s[i].0 == k,
    decreases s.len(),
{
    if s.len() > 0 {
        lemma_fold_pairs_contains(s.drop_last(), k);
        if s.last().0 == k {
            assert(s[s.len() - 1].0 == k);
        } else if fold_pairs(s).contains_key(k) {
            let i = choose|i: int| 0 <= i < s.drop_last().len() && s.drop_last()[i].0 == k;
            assert(s[i].0 == k);
        } else {
            assert(forall|i: int| 0 <= i < s.len() - 1 && s[i].0 == k ==> s.drop_last()[i].0 == k);
        }
    }
}

/// With pairwise-distinct keys, the folded map carries each pair's own value.
pub proof fn lemma_fold_pairs_value<K, V>(s: Seq<(K, V)>, i: int)
    requires
        0 <= i < s.len(),
        forall|x: int, y: int| 0 <= x < y < s.len() ==> s[x].0 != s[y].0,
    ensures
        fold_pairs(s).contains_key(s[i].0),
        fold_pairs(s)[s[i].0] == s[i].1,
    decreases s.len(),
{
    if i == s.len() - 1 {
    } else {
        assert(s[i].0 != s.last().0);
        assert(s.drop_last()[i] == s[i]);
        lemma_fold_pairs_value(s.drop_last(), i);
    }
}

/// With pairwise-distinct keys, updating the value of pair `i` in place
/// updates the folded map at that pair's key.
pub proof fn lemma_fold_pairs_update<K, V>(s: Seq<(K, V)>, i: int, v: V)
    requires
        0 <= i < s.len(),
        forall|x: int, y: int| 0 <= x < y < s.len() ==> s[x].0 != s[y].0,
    ensures
        fold_pairs(s.update(i, (s[i].0, v))) == fold_pairs(s).insert(s[i].0, v),
    decreases s.len(),
{
    let t = s.update(i, (s[i].0, v));
    if i == s.len() - 1 {
        assert(t.drop_last() =~= s.drop_last());
        assert(fold_pairs(t) =~= fold_pairs(s).insert(s[i].0, v));
    } else {
        assert(t.drop_last() =~= s.drop_last().update(i, (s[i].0, v)));
        assert(s.drop_last()[i] == s[i]);
        lemma_fold_pairs_update(s.drop_last(), i, v);
        assert(s[i].0 != s.last().0);
        assert(fold_pairs(t) == fold_pairs(s.drop_last()).insert(s[i].0, v).insert(
            s.last().0,
            s.last().1,
        ));
        assert(fold_pairs(t) =~= fold_pairs(s).insert(s[i].0, v));
    }
}

} // verus!
