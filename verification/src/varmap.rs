//! The flat index from fully-qualified signal name to signal identifier.

use crate::assoc::{assoc_view, distinct_keys, lemma_assoc_view_absent, lemma_assoc_view_entry,
    lemma_assoc_view_push, lemma_assoc_view_update};
use vstd::prelude::*;

verus! {

/// Mapping from fully-qualified dotted signal name to the opaque signal
/// identifier the trace assigned to it. Names are unique keys; inserting a
/// name again overwrites its earlier binding.
#[derive(Debug, PartialEq, Eq)]
pub struct VariableMap {
    pub entries: Vec<(String, String)>,
}

impl View for VariableMap {
    type V = Map<Seq<char>, Seq<char>>;

    open spec fn view(&self) -> Map<Seq<char>, Seq<char>> {
        assoc_view(self.entries@)
    }
}

impl VariableMap {
    /// No two entries bind the same name.
    pub open spec fn wf(self) -> bool {
        distinct_keys(self.entries@)
    }

    /// An empty mapping.
    pub fn new() -> (r: Self)
        ensures
            r.wf(),
            r@ == Map::<Seq<char>, Seq<char>>::empty(),
            r.entries@.len() == 0,
    {
        VariableMap { entries: Vec::new() }
    }

    /// Binds `name` to `identifier`, overwriting any earlier binding of the
    /// same name.
    pub fn insert(&mut self, name: String, identifier: String)
        requires
            old(self).wf(),
        ensures
            final(self).wf(),
            final(self)@ == old(self)@.insert(name@, identifier@),
    {
        let n = self.entries.len();
        let mut i: usize = 0;
        while i < n
            invariant
                i <= n,
                n == self.entries@.len(),
                self.entries@ == old(self).entries@,
                old(self).wf(),
                forall|k: int| 0 <= k < i ==> self.entries@[k].0@ != name@,
            decreases n - i,
        {
            if self.entries[i].0 == name {
                proof {
                    lemma_assoc_view_update(self.entries@, i as int, (name, identifier));
                }
                self.entries.set(i, (name, identifier));
                return ;
            }
            i += 1;
        }
        proof {
            lemma_assoc_view_push(self.entries@, (name, identifier));
        }
        self.entries.push((name, identifier));
    }

    /// Looks the binding of `name` up.
    pub fn get(&self, name: &String) -> (r: Option<String>)
        requires
            self.wf(),
        ensures
            match r {
                Some(v) => self@.contains_key(name@) && v@ == self@[name@],
                None => !self@.contains_key(name@),
            },
    {
        let n = self.entries.len();
        let mut i: usize = 0;
        while i < n
            invariant
                i <= n,
                n == self.entries@.len(),
                self.wf(),
                forall|k: int| 0 <= k < i ==> self.entries@[k].0@ != name@,
            decreases n - i,
        {
            if self.entries[i].0 == *name {
                proof {
                    lemma_assoc_view_entry(self.entries@, i as int);
                }
                return Some(self.entries[i].1.clone());
            }
            i += 1;
        }
        proof {
            lemma_assoc_view_absent(self.entries@, name@);
        }
        None
    }

    /// The number of names bound.
    pub fn len(&self) -> (r: usize)
        ensures
            r == self.entries@.len(),
    {
        self.entries.len()
    }
}

} // verus!
