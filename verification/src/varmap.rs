//! The variable map: an ordered mapping from string keys to string values,
//! built fresh for every logical change event. Insertion appends, and a later
//! insertion for an existing key wins, so keys contributed by an auxiliary
//! variables-command may overwrite built-in keys.

use crate::assoc::{fold_pairs, lemma_fold_pairs_is_lookup, lookup_last};
use vstd::prelude::*;

verus! {

/// An ordered string-to-string mapping with last-write-wins lookup.
pub struct VariableMap {
    pub(crate) pairs: Vec<(String, String)>,
}

impl VariableMap {
    /// The key-value pairs, in insertion order, as character sequences.
    pub closed spec fn pairs_seq(self) -> Seq<(Seq<char>, Seq<char>)> {
        self.pairs@.map_values(|p: (String, String)| (p.0@, p.1@))
    }

    /// The mapping the pairs denote: a later pair for the same key wins.
    pub open spec fn map_view(self) -> Map<Seq<char>, Seq<char>> {
        fold_pairs(self.pairs_seq())
    }

    /// An empty map: no key, stale or otherwise.
    pub fn new() -> (m: VariableMap)
        ensures
            m.pairs_seq() == Seq::<(Seq<char>, Seq<char>)>::empty(),
            m.map_view() == Map::<Seq<char>, Seq<char>>::empty(),
    {
        let m = VariableMap { pairs: Vec::new() };
        proof {
            assert(m.pairs_seq() =~= Seq::<(Seq<char>, Seq<char>)>::empty());
        }
        m
    }

    /// Appends a pair; for an existing key the new value wins.
    pub fn insert(&mut self, key: String, value: String)
        ensures
            final(self).pairs_seq() == old(self).pairs_seq().push((key@, value@)),
            final(self).map_view() == old(self).map_view().insert(key@, value@),
    {
        let ghost k = key@;
        let ghost v = value@;
        self.pairs.push((key, value));
        proof {
            assert(self.pairs_seq() =~= old(self).pairs_seq().push((k, v)));
            assert(self.pairs_seq().drop_last() =~= old(self).pairs_seq());
        }
    }

    /// The value last inserted for `key`, if any.
    pub fn get(&self, key: &String) -> (r: Option<&String>)
        ensures
            r is Some <==> self.map_view().contains_key(key@),
            r matches Some(v) ==> self.map_view()[key@] == v@,
    {
        let mut i: usize = self.pairs.len();
        proof {
            assert(self.pairs_seq().take(i as int) =~= self.pairs_seq());
        }
        while i > 0
            invariant
                i <= self.pairs@.len(),
                lookup_last(self.pairs_seq(), key@) == lookup_last(
                    self.pairs_seq().take(i as int),
                    key@,
                ),
            decreases i,
        {
            i -= 1;
            if self.pairs[i].0 == *key {
                proof {
                    assert(self.pairs_seq().take(i + 1).last() == self.pairs_seq()[i as int]);
                    lemma_fold_pairs_is_lookup(self.pairs_seq(), key@);
                }
                return Some(&self.pairs[i].1);
            }
            proof {
                assert(self.pairs_seq().take(i + 1).drop_last() =~= self.pairs_seq().take(i as int));
            }
        }
        proof {
            assert(self.pairs_seq().take(0) =~= Seq::<(Seq<char>, Seq<char>)>::empty());
            lemma_fold_pairs_is_lookup(self.pairs_seq(), key@);
        }
        None
    }

    /// How many pairs the map holds, overwritten keys counted once each write.
    pub fn len(&self) -> (n: usize)
        ensures
            n == self.pairs_seq().len(),
    {
        self.pairs.len()
    }
}

} // verus!
