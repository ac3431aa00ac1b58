//! The symbol table of the lowering pass: a stack of scopes, each a map
//! from name to identifier.

use vstd::prelude::*;
use crate::assoc::{lemma_map_of_absent, lemma_map_of_last, lemma_map_of_update, map_of};
use crate::ir_types::Id;
use crate::text::str_eq;

verus! {

/// One scope: the names that a lexical region binds.
#[derive(Debug, Clone)]
pub struct Scope {
    pub entries: Vec<(String, Id)>,
}

impl View for Scope {
    type V = Map<Seq<char>, Id>;

    open spec fn view(&self) -> Map<Seq<char>, Id> {
        map_of(self.pairs())
    }
}

impl Scope {
    /// The entries, in order, each as name and identifier.
    pub open spec fn pairs(&self) -> Seq<(Seq<char>, Id)> {
        Seq::new(self.entries@.len(), |i: int| (self.entries@[i].0@, self.entries@[i].1))
    }

    /// A scope that binds nothing.
    pub fn new() -> (r: Self)
        ensures
            r@ == Map::<Seq<char>, Id>::empty(),
    {
        let r = Scope { entries: Vec::new() };
        assert(r.pairs() =~= Seq::<(Seq<char>, Id)>::empty());
        r
    }

    /// The index of the last entry with this name.
    fn position(&self, name: &str) -> (r: Option<usize>)
        ensures
            match r {
                Some(i) => i < self.entries@.len() && self.pairs()[i as int].0 == name@ && forall|
                    j: int,
                |
                    i < j < self.entries@.len() ==> (#[trigger] self.pairs()[j]).0 != name@,
                None => forall|j: int|
                    0 <= j < self.entries@.len() ==> (#[trigger] self.pairs()[j]).0 != name@,
            },
    {
        let mut i: usize = self.entries.len();
        while i > 0
            invariant
                i <= self.entries@.len(),
                forall|j: int|
                    i <= j < self.entries@.len() ==> (#[trigger] self.pairs()[j]).0 != name@,
            decreases i,
        {
            i -= 1;
            if str_eq(self.entries[i].0.as_str(), name) {
                return Some(i);
            }
        }
        None
    }

    /// The identifier that this scope binds `name` to.
    pub fn get(&self, name: &str) -> (r: Option<Id>)
        ensures
            r is Some <==> self@.dom().contains(name@),
            r matches Some(id) ==> id == self@[name@],
    {
        match self.position(name) {
            Some(i) => {
                proof {
                    lemma_map_of_last(self.pairs(), i as int);
                }
                Some(self.entries[i].1)
            },
            None => {
                proof {
                    lemma_map_of_absent(self.pairs(), name@);
                }
                None
            },
        }
    }

    /// Binds `name` to `id` in this scope.
    pub fn insert(&mut self, name: String, id: Id)
        ensures
            final(self)@ == old(self)@.insert(name@, id),
    {
        match self.position(name.as_str()) {
            Some(i) => {
                proof {
                    lemma_map_of_update(self.pairs(), i as int, id);
                }
                let ghost before = self.pairs();
                self.entries.set(i, (name, id));
                assert(self.pairs() =~= before.update(i as int, (name@, id)));
            },
            None => {
                let ghost before = self.pairs();
                self.entries.push((name, id));
                assert(self.pairs() =~= before.push((name@, id)));
                assert(self.pairs().drop_last() =~= before);
            },
        }
    }
}

/// The scopes of a stack, the outermost first.
pub open spec fn scope_maps(scopes: Seq<Scope>) -> Seq<Map<Seq<char>, Id>> {
    Seq::new(scopes.len(), |i: int| scopes[i]@)
}

/// Whether one of the scopes binds `name`.
pub open spec fn is_bound(scopes: Seq<Map<Seq<char>, Id>>, name: Seq<char>) -> bool {
    exists|i: int| 0 <= i < scopes.len() && (#[trigger] scopes[i]).dom().contains(name)
}

/// The identifier that the innermost scope that binds `name` binds it to.
pub open spec fn resolve(scopes: Seq<Map<Seq<char>, Id>>, name: Seq<char>) -> Option<Id>
    decreases scopes.len(),
{
    if scopes.len() == 0 {
        None
    } else if scopes.last().dom().contains(name) {
        Some(scopes.last()[name])
    } else {
        resolve(scopes.drop_last(), name)
    }
}

/// The scopes after `name` is bound to `id` in the innermost one.
pub open spec fn bind(scopes: Seq<Map<Seq<char>, Id>>, name: Seq<char>, id: Id) -> Seq<
    Map<Seq<char>, Id>,
> {
    scopes.update(scopes.len() - 1, scopes.last().insert(name, id))
}

/// A name resolves exactly where some scope binds it.
pub proof fn lemma_resolve_iff_bound(scopes: Seq<Map<Seq<char>, Id>>, name: Seq<char>)
    ensures
        resolve(scopes, name) is Some <==> is_bound(scopes, name),
    decreases scopes.len(),
{
    if scopes.len() > 0 {
        assert(scopes.last() == scopes[scopes.len() - 1]);
        if !scopes.last().dom().contains(name) {
            lemma_resolve_iff_bound(scopes.drop_last(), name);
            if is_bound(scopes, name) {
                let i = choose|i: int| 0 <= i < scopes.len() && (#[trigger] scopes[i]).dom().contains(name);
                assert(scopes.drop_last()[i] == scopes[i]);
            }
            if is_bound(scopes.drop_last(), name) {
                let i = choose|i: int|
                    0 <= i < scopes.drop_last().len() && (
                    #[trigger] scopes.drop_last()[i]).dom().contains(name);
                assert(scopes.drop_last()[i] == scopes[i]);
            }
        }
    }
}

} // verus!
