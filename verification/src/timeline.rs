//! The per-signal timeline: simulation time to canonical value text.

use crate::assoc::{assoc_view, distinct_keys, lemma_assoc_view_absent, lemma_assoc_view_entry,
    lemma_assoc_view_push, lemma_assoc_view_update};
use vstd::prelude::*;

verus! {

/// Mapping from simulation timestamp to the canonical text of the value a
/// signal took at that time. Timestamps are unique keys; a later write at a
/// timestamp overwrites the earlier value.
#[derive(Debug, PartialEq, Eq)]
pub struct Timeline {
    pub entries: Vec<(u64, String)>,
}

impl View for Timeline {
    type V = Map<u64, Seq<char>>;

    open spec fn view(&self) -> Map<u64, Seq<char>> {
        assoc_view(self.entries@)
    }
}

impl Timeline {
    /// No two entries stand at the same timestamp.
    pub open spec fn wf(self) -> bool {
        distinct_keys(self.entries@)
    }

    /// A timeline holding one change.
    pub fn single(time: u64, value: String) -> (r: Self)
        ensures
            r.wf(),
            r@ == Map::<u64, Seq<char>>::empty().insert(time, value@),
            r.entries@.len() == 1,
    {
        let mut entries: Vec<(u64, String)> = Vec::new();
        entries.push((time, value));
        proof {
            assert(entries@.drop_last() =~= Seq::<(u64, String)>::empty());
            assert(assoc_view(Seq::<(u64, String)>::empty()) == Map::<u64, Seq<char>>::empty());
            assert(entries@.last() == (time, value));
        }
        Timeline { entries }
    }

    /// Records `value` at `time`, overwriting any value already recorded at
    /// that timestamp.
    pub fn set_value(&mut self, time: u64, value: String)
        requires
            old(self).wf(),
        ensures
            final(self).wf(),
            final(self)@ == old(self)@.insert(time, value@),
            final(self).entries@.len() > 0,
    {
        let n = self.entries.len();
        let mut i: usize = 0;
        while i < n
            invariant
                i <= n,
                n == self.entries@.len(),
                self.entries@ == old(self).entries@,
                old(self).wf(),
                forall|k: int| 0 <= k < i ==> self.entries@[k].0 != time,
            decreases n - i,
        {
            if self.entries[i].0 == time {
                proof {
                    lemma_assoc_view_update(self.entries@, i as int, (time, value));
                }
                self.entries.set(i, (time, value));
                return ;
            }
            i += 1;
        }
        proof {
            lemma_assoc_view_push(self.entries@, (time, value));
        }
        self.entries.push((time, value));
    }

    /// Looks the value recorded at `time` up.
    pub fn get(&self, time: u64) -> (r: Option<String>)
        requires
            self.wf(),
        ensures
            match r {
                Some(v) => self@.contains_key(time) && v@ == self@[time],
                None => !self@.contains_key(time),
            },
    {
        let n = self.entries.len();
        let mut i: usize = 0;
        while i < n
            invariant
                i <= n,
                n == self.entries@.len(),
                self.wf(),
                forall|k: int| 0 <= k < i ==> self.entries@[k].0 != time,
            decreases n - i,
        {
            if self.entries[i].0 == time {
                proof {
                    lemma_assoc_view_entry(self.entries@, i as int);
                }
                return Some(self.entries[i].1.clone());
            }
            i += 1;
        }
        proof {
            lemma_assoc_view_absent(self.entries@, time);
        }
        None
    }

    /// The number of changes recorded.
    pub fn len(&self) -> (r: usize)
        ensures
            r == self.entries@.len(),
    {
        self.entries.len()
    }
}

} // verus!
