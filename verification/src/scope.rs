//! One lexical scope: a name-to-value table plus a link to the
//! enclosing scope in the interpreter's scope arena. Scopes are shared
//! through arena indices, so a closure and the code around it see each
//! other's assignments.

use vstd::prelude::*;
use crate::interpreter::Value;
use crate::semantics::{assoc_find, lemma_assoc_find_at, lemma_assoc_find_none, ScopeM, Val};

verus! {

pub struct Scope {
    /// Bindings in declaration order; a name occurs at most once.
    pub entries: Vec<(String, Value)>,
    /// Arena index of the enclosing scope, if any.
    pub parent: Option<usize>,
}

impl View for Scope {
    type V = ScopeM;

    open spec fn view(&self) -> ScopeM {
        ScopeM {
            entries: self.entries@.map_values(|p: (String, Value)| (p.0@, p.1@)),
            parent: match self.parent {
                Some(p) => Some(p as int),
                None => None,
            },
        }
    }
}

impl Scope {
    pub fn new(parent: Option<usize>) -> (s: Scope)
        ensures
            s@.entries =~= Seq::<(Seq<char>, Val)>::empty(),
            s@.parent == match parent {
                Some(p) => Some(p as int),
                None => None::<int>,
            },
    {
        Scope { entries: Vec::new(), parent }
    }

    /// Index of the binding of `name`, if there is one.
    pub fn find_idx(&self, name: &String) -> (r: Option<usize>)
        ensures
            match r {
                Some(j) => {
                    &&& j < self.entries.len()
                    &&& self@.entries[j as int].0 == name@
                    &&& assoc_find(self@.entries, name@) == Some(self@.entries[j as int].1)
                    &&& forall|l: int|
                        0 <= l < j ==> (#[trigger] self@.entries[l]).0 != name@
                },
                None => assoc_find(self@.entries, name@) is None,
            },
    {
        let mut i: usize = 0;
        while i < self.entries.len()
            invariant
                i <= self.entries.len(),
                forall|l: int| 0 <= l < i ==> (#[trigger] self@.entries[l]).0 != name@,
            decreases self.entries.len() - i,
        {
            if self.entries[i].0 == *name {
                proof {
                    lemma_assoc_find_at(self@.entries, name@, i as int);
                }
                return Some(i);
            }
            i += 1;
        }
        proof {
            lemma_assoc_find_none::<Seq<char>, Val>(self@.entries, name@);
        }
        None
    }

    /// Whether `name` is bound in this scope alone (never the chain).
    pub fn contains_key(&self, name: &String) -> (r: bool)
        ensures
            r == (assoc_find(self@.entries, name@) is Some),
    {
        match self.find_idx(name) {
            Some(_) => true,
            None => false,
        }
    }

    /// Binds `name` in this scope; `false` (and no change) when the
    /// name is already bound here.
    pub fn define_var(&mut self, name: &String, v: Value) -> (r: bool)
        ensures
            if assoc_find(old(self)@.entries, name@) is Some {
                !r && *final(self) == *old(self)
            } else {
                &&& r
                &&& final(self)@.entries == old(self)@.entries.push((name@, v@))
                &&& final(self)@.parent == old(self)@.parent
            },
    {
        match self.find_idx(name) {
            Some(_) => false,
            None => {
                self.entries.push((name.clone(), v));
                proof {
                    assert(self@.entries =~= old(self)@.entries.push((name@, v@)));
                }
                true
            },
        }
    }
}

} // verus!
