//! The session's mapping type: an association list from string names to
//! string values with unique keys, viewed in specifications as a
//! `Map<Seq<char>, Seq<char>>`. Both the environment-variable table and the
//! alias table of a shell session are values of this type.

use vstd::prelude::*;
use crate::strutil::str_eq;

verus! {

/// A mapping from names to values with unique keys.
pub struct StrMap {
    pub pairs: Vec<(String, String)>,
}

/// The mathematical map an association list stands for; later entries win,
/// though under `StrMap::inv` the keys are distinct and order is irrelevant.
pub open spec fn assoc_map(pairs: Seq<(String, String)>) -> Map<Seq<char>, Seq<char>>
    decreases pairs.len(),
{
    if pairs.len() == 0 {
        Map::empty()
    } else {
        assoc_map(pairs.drop_last()).insert(pairs.last().0@, pairs.last().1@)
    }
}

impl View for StrMap {
    type V = Map<Seq<char>, Seq<char>>;

    open spec fn view(&self) -> Map<Seq<char>, Seq<char>> {
        assoc_map(self.pairs@)
    }
}

pub proof fn lemma_assoc_map_keys(pairs: Seq<(String, String)>)
    ensures
        assoc_map(pairs).dom().finite(),
        forall|k: Seq<char>|
            assoc_map(pairs).contains_key(k) <==> exists|i: int|
                0 <= i < pairs.len() && #[trigger] pairs[i].0@ == k,
    decreases pairs.len(),
{
    if pairs.len() > 0 {
        lemma_assoc_map_keys(pairs.drop_last());
        assert forall|k: Seq<char>| assoc_map(pairs).contains_key(k) implies exists|i: int|
            0 <= i < pairs.len() && #[trigger] pairs[i].0@ == k by {
            if k == pairs.last().0@ {
                assert(pairs[pairs.len() - 1].0@ == k);
            } else {
                let i = choose|i: int| 0 <= i < pairs.drop_last().len() && #[trigger] pairs.drop_last()[i].0@ == k;
                assert(pairs[i].0@ == k);
            }
        }
        assert forall|k: Seq<char>|
            (exists|i: int| 0 <= i < pairs.len() && #[trigger] pairs[i].0@ == k) implies
            assoc_map(pairs).contains_key(k) by {
            let i = choose|i: int| 0 <= i < pairs.len() && #[trigger] pairs[i].0@ == k;
            if i < pairs.len() - 1 {
                assert(pairs.drop_last()[i].0@ == k);
            }
        }
    }
}

/// Distinctness of the keys of an association list.
pub open spec fn distinct_keys(pairs: Seq<(String, String)>) -> bool {
    forall|i: int, j: int|
        0 <= i < j < pairs.len() ==> (#[trigger] pairs[i].0@) != (#[trigger] pairs[j].0@)
}

pub proof fn lemma_assoc_map_index(pairs: Seq<(String, String)>, i: int)
    requires
        distinct_keys(pairs),
        0 <= i < pairs.len(),
    ensures
        assoc_map(pairs).contains_key(pairs[i].0@),
        assoc_map(pairs)[pairs[i].0@] == pairs[i].1@,
    decreases pairs.len(),
{
    if i == pairs.len() - 1 {
    } else {
        lemma_assoc_map_index(pairs.drop_last(), i);
        assert(pairs.drop_last()[i] == pairs[i]);
    }
}

pub proof fn lemma_assoc_map_len(pairs: Seq<(String, String)>)
    requires
        distinct_keys(pairs),
    ensures
        assoc_map(pairs).dom().finite(),
        assoc_map(pairs).dom().len() == pairs.len(),
    decreases pairs.len(),
{
    broadcast use vstd::set::axiom_set_insert_len;

    lemma_assoc_map_keys(pairs);
    if pairs.len() > 0 {
        lemma_assoc_map_len(pairs.drop_last());
        lemma_assoc_map_keys(pairs.drop_last());
        assert(!assoc_map(pairs.drop_last()).contains_key(pairs.last().0@)) by {
            if assoc_map(pairs.drop_last()).contains_key(pairs.last().0@) {
                let i = choose|i: int|
                    0 <= i < pairs.drop_last().len() && #[trigger] pairs.drop_last()[i].0@
                        == pairs.last().0@;
                assert(pairs[i].0@ == pairs[pairs.len() - 1].0@);
            }
        }
    }
}

impl StrMap {
    /// Well-formedness: no name occurs twice.
    pub open spec fn inv(&self) -> bool {
        distinct_keys(self.pairs@)
    }

    pub fn new() -> (r: StrMap)
        ensures
            r.inv(),
            r@ == Map::<Seq<char>, Seq<char>>::empty(),
            r.pairs@.len() == 0,
    {
        StrMap { pairs: Vec::new() }
    }

    /// Index of the entry holding `name`, if any.
    fn find(&self, name: &str) -> (r: Option<usize>)
        ensures
            match r {
                Some(i) => i < self.pairs@.len() && self.pairs@[i as int].0@ == name@,
                None => forall|i: int| 0 <= i < self.pairs@.len() ==> (#[trigger] self.pairs@[i].0@) != name@,
            },
    {
        let n = self.pairs.len();
        let mut i: usize = 0;
        while i < n
            invariant
                n == self.pairs@.len(),
                i <= n,
                forall|j: int| 0 <= j < i ==> (#[trigger] self.pairs@[j].0@) != name@,
            decreases n - i,
        {
            if str_eq(self.pairs[i].0.as_str(), name) {
                return Some(i);
            }
            i = i + 1;
        }
        None
    }

    /// Looks a name up, returning a reference to its value if bound.
    pub fn get(&self, name: &str) -> (r: Option<&String>)
        requires
            self.inv(),
        ensures
            match r {
                Some(v) => self@.contains_key(name@) && v@ == self@[name@],
                None => !self@.contains_key(name@),
            },
    {
        proof {
            lemma_assoc_map_keys(self.pairs@);
        }
        match self.find(name) {
            Some(i) => {
                proof {
                    lemma_assoc_map_index(self.pairs@, i as int);
                }
                Some(&self.pairs[i].1)
            },
            None => None,
        }
    }

    /// Inserts or overwrites a binding.
    pub fn insert(&mut self, name: String, value: String)
        requires
            old(self).inv(),
        ensures
            final(self).inv(),
            final(self)@ == old(self)@.insert(name@, value@),
            final(self).pairs@.len() <= old(self).pairs@.len() + 1,
    {
        match self.find(name.as_str()) {
            Some(i) => {
                let ghost old_pairs = self.pairs@;
                self.pairs[i] = (name, value);
                proof {
                    lemma_assoc_update(old_pairs, i as int, self.pairs@[i as int]);
                }
            },
            None => {
                let ghost old_pairs = self.pairs@;
                self.pairs.push((name, value));
                proof {
                    assert(self.pairs@.drop_last() =~= old_pairs);
                }
            },
        }
    }

    /// Removes a binding; absence is not an error.
    pub fn remove(&mut self, name: &str)
        requires
            old(self).inv(),
        ensures
            final(self).inv(),
            final(self)@ == old(self)@.remove(name@),
            final(self).pairs@.len() <= old(self).pairs@.len(),
    {
        proof {
            lemma_assoc_map_keys(self.pairs@);
        }
        match self.find(name) {
            Some(i) => {
                let ghost old_pairs = self.pairs@;
                self.pairs.remove(i);
                proof {
                    lemma_assoc_remove(old_pairs, i as int);
                }
            },
            None => {
                proof {
                    assert(self@.remove(name@) =~= self@);
                }
            },
        }
    }

    /// How many bindings the map holds.
    pub fn len(&self) -> (n: usize)
        ensures
            n == self.pairs@.len(),
    {
        self.pairs.len()
    }
}

proof fn lemma_assoc_update(pairs: Seq<(String, String)>, i: int, p: (String, String))
    requires
        distinct_keys(pairs),
        0 <= i < pairs.len(),
        p.0@ == pairs[i].0@,
    ensures
        distinct_keys(pairs.update(i, p)),
        assoc_map(pairs.update(i, p)) == assoc_map(pairs).insert(p.0@, p.1@),
    decreases pairs.len(),
{
    if i == pairs.len() - 1 {
        assert(pairs.update(i, p).drop_last() =~= pairs.drop_last());
        assert(assoc_map(pairs.update(i, p)) =~= assoc_map(pairs).insert(p.0@, p.1@));
    } else {
        lemma_assoc_update(pairs.drop_last(), i, p);
        assert(pairs.update(i, p).drop_last() =~= pairs.drop_last().update(i, p));
        assert(pairs.update(i, p).last() == pairs.last());
        assert(pairs[i].0@ != pairs.last().0@);
        assert(assoc_map(pairs.update(i, p)) =~= assoc_map(pairs).insert(p.0@, p.1@));
    }
}

proof fn lemma_assoc_remove(pairs: Seq<(String, String)>, i: int)
    requires
        distinct_keys(pairs),
        0 <= i < pairs.len(),
    ensures
        distinct_keys(pairs.remove(i)),
        assoc_map(pairs.remove(i)) == assoc_map(pairs).remove(pairs[i].0@),
    decreases pairs.len(),
{
    lemma_assoc_map_keys(pairs.remove(i));
    if i == pairs.len() - 1 {
        assert(pairs.remove(i) =~= pairs.drop_last());
        assert(!assoc_map(pairs.drop_last()).contains_key(pairs.last().0@)) by {
            lemma_assoc_map_keys(pairs.drop_last());
            if assoc_map(pairs.drop_last()).contains_key(pairs.last().0@) {
                let j = choose|j: int|
                    0 <= j < pairs.drop_last().len() && #[trigger] pairs.drop_last()[j].0@
                        == pairs.last().0@;
                assert(pairs[j].0@ == pairs[pairs.len() - 1].0@);
            }
        }
        assert(assoc_map(pairs.remove(i)) =~= assoc_map(pairs).remove(pairs[i].0@));
    } else {
        lemma_assoc_remove(pairs.drop_last(), i);
        assert(pairs.remove(i).drop_last() =~= pairs.drop_last().remove(i));
        assert(pairs.remove(i).last() == pairs.last());
        assert(pairs[i].0@ != pairs.last().0@);
        assert(assoc_map(pairs.remove(i)) =~= assoc_map(pairs).remove(pairs[i].0@));
    }
}

} // verus!
