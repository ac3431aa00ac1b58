//! The open, string-keyed part of a style: property name to value.
//!
//! The map keeps its entries in the order in which their keys first came.
//! Where a key stands more than once, the last entry counts.

use vstd::prelude::*;
use crate::assoc::{
    lemma_map_of_absent, lemma_map_of_last, lemma_map_of_update, lemma_put_absent,
    lemma_put_found, map_of, put,
};
use crate::text::str_eq;

verus! {

/// A map from property name to value.
#[derive(Debug)]
pub struct StyleMap {
    pub entries: Vec<(String, String)>,
}

impl View for StyleMap {
    type V = Map<Seq<char>, Seq<char>>;

    open spec fn view(&self) -> Map<Seq<char>, Seq<char>> {
        map_of(self.pairs())
    }
}

impl StyleMap {
    /// The entries, in order, each as key and value.
    pub open spec fn pairs(&self) -> Seq<(Seq<char>, Seq<char>)> {
        Seq::new(self.entries@.len(), |i: int| (self.entries@[i].0@, self.entries@[i].1@))
    }

    /// A map without entries.
    pub fn new() -> (r: Self)
        ensures
            r@ == Map::<Seq<char>, Seq<char>>::empty(),
            r.pairs() == Seq::<(Seq<char>, Seq<char>)>::empty(),
    {
        let r = StyleMap { entries: Vec::new() };
        assert(r.pairs() =~= Seq::<(Seq<char>, Seq<char>)>::empty());
        r
    }

    /// The index of the last entry with this key.
    fn position(&self, key: &str) -> (r: Option<usize>)
        ensures
            match r {
                Some(i) => i < self.entries@.len() && self.pairs()[i as int].0 == key@ && forall|
                    j: int,
                |
                    i < j < self.entries@.len() ==> (#[trigger] self.pairs()[j]).0 != key@,
                None => forall|j: int|
                    0 <= j < self.entries@.len() ==> (#[trigger] self.pairs()[j]).0 != key@,
            },
    {
        let mut i: usize = self.entries.len();
        while i > 0
            invariant
                i <= self.entries@.len(),
                forall|j: int|
                    i <= j < self.entries@.len() ==> (#[trigger] self.pairs()[j]).0 != key@,
            decreases i,
        {
            i -= 1;
            if str_eq(self.entries[i].0.as_str(), key) {
                return Some(i);
            }
        }
        None
    }

    /// The value of `key`, where the map has one.
    pub fn get(&self, key: &str) -> (r: Option<&String>)
        ensures
            r is Some <==> self@.dom().contains(key@),
            r matches Some(v) ==> v@ == self@[key@],
    {
        match self.position(key) {
            Some(i) => {
                proof {
                    lemma_map_of_last(self.pairs(), i as int);
                }
                Some(&self.entries[i].1)
            },
            None => {
                proof {
                    lemma_map_of_absent(self.pairs(), key@);
                }
                None
            },
        }
    }

    /// Whether the map has a value for `key`.
    pub fn contains_key(&self, key: &str) -> (r: bool)
        ensures
            r == self@.dom().contains(key@),
    {
        self.get(key).is_some()
    }

    /// Gives `key` the value `value`, in the key's place where it has one and
    /// at the end where it has none.
    pub fn insert(&mut self, key: String, value: String)
        ensures
            final(self)@ == old(self)@.insert(key@, value@),
            final(self).pairs() == put(old(self).pairs(), key@, value@),
    {
        match self.position(key.as_str()) {
            Some(i) => {
                proof {
                    lemma_map_of_update(self.pairs(), i as int, value@);
                    lemma_put_found(self.pairs(), key@, value@, i as int);
                }
                let ghost before = self.pairs();
                self.entries.set(i, (key, value));
                assert(self.pairs() =~= before.update(i as int, (key@, value@)));
            },
            None => {
                proof {
                    lemma_put_absent(self.pairs(), key@, value@);
                }
                let ghost before = self.pairs();
                self.entries.push((key, value));
                assert(self.pairs() =~= before.push((key@, value@)));
                assert(self.pairs().drop_last() =~= before);
            },
        }
    }

    /// The number of entries.
    pub fn len(&self) -> (n: usize)
        ensures
            n == self.pairs().len(),
    {
        self.entries.len()
    }

    /// Whether the map has no entry.
    pub fn is_empty(&self) -> (r: bool)
        ensures
            r == (self.pairs().len() == 0),
            r == (self@ == Map::<Seq<char>, Seq<char>>::empty()),
    {
        proof {
            if self.pairs().len() > 0 {
                assert(self@.dom().contains(self.pairs().last().0));
            }
        }
        self.entries.len() == 0
    }
}

impl Clone for StyleMap {
    fn clone(&self) -> (r: Self)
        ensures
            r.pairs() == self.pairs(),
            r@ == self@,
    {
        let mut entries: Vec<(String, String)> = Vec::new();
        let mut i: usize = 0;
        while i < self.entries.len()
            invariant
                i <= self.entries@.len(),
                entries@.len() == i,
                forall|j: int| 0 <= j < i ==> entries@[j] == self.entries@[j],
            decreases self.entries@.len() - i,
        {
            entries.push((self.entries[i].0.clone(), self.entries[i].1.clone()));
            i += 1;
        }
        let r = StyleMap { entries };
        assert(r.pairs() =~= self.pairs());
        r
    }
}

} // verus!
