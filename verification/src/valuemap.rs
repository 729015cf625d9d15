//! The index from signal identifier to its timeline of value changes.

use crate::assoc::{assoc_view, distinct_keys, lemma_assoc_view_absent, lemma_assoc_view_entry,
    lemma_assoc_view_push, lemma_assoc_view_update};
use crate::timeline::Timeline;
use vstd::prelude::*;

verus! {

/// Records `value` for `id` at time `time` in the abstract index: the
/// signal's timeline is created on its first change, and a later write at an
/// already-recorded timestamp overwrites the earlier value.
pub open spec fn record(
    m: Map<Seq<char>, Map<u64, Seq<char>>>,
    id: Seq<char>,
    time: u64,
    value: Seq<char>,
) -> Map<Seq<char>, Map<u64, Seq<char>>> {
    let timeline = if m.contains_key(id) {
        m[id]
    } else {
        Map::<u64, Seq<char>>::empty()
    };
    m.insert(id, timeline.insert(time, value))
}

/// Mapping from opaque signal identifier to that signal's timeline.
/// Identifiers are unique keys and every timeline holds at least one change.
#[derive(Debug, PartialEq, Eq)]
pub struct ValueMap {
    pub entries: Vec<(String, Timeline)>,
}

impl View for ValueMap {
    type V = Map<Seq<char>, Map<u64, Seq<char>>>;

    open spec fn view(&self) -> Map<Seq<char>, Map<u64, Seq<char>>> {
        assoc_view(self.entries@)
    }
}

impl ValueMap {
    /// Identifiers are distinct, every timeline is itself well-formed, and
    /// no timeline is empty: a signal is listed only once it received a
    /// change.
    pub open spec fn wf(self) -> bool {
        &&& distinct_keys(self.entries@)
        &&& forall|i: int|
            0 <= i < self.entries@.len() ==> (#[trigger] self.entries@[i]).1.wf()
                && self.entries@[i].1.entries@.len() > 0
    }

    /// An empty index.
    pub fn new() -> (r: Self)
        ensures
            r.wf(),
            r@ == Map::<Seq<char>, Map<u64, Seq<char>>>::empty(),
            r.entries@.len() == 0,
    {
        ValueMap { entries: Vec::new() }
    }

    /// Records `value` for `id` at `time`, creating the signal's timeline on
    /// its first change and overwriting an earlier value recorded at the same
    /// timestamp.
    pub fn record(&mut self, id: &String, time: u64, value: String)
        requires
            old(self).wf(),
        ensures
            final(self).wf(),
            final(self)@ == record(old(self)@, id@, time, value@),
    {
        let n = self.entries.len();
        let mut i: usize = 0;
        while i < n
            invariant
                i <= n,
                n == self.entries@.len(),
                self.entries@ == old(self).entries@,
                old(self).wf(),
                forall|k: int| 0 <= k < i ==> self.entries@[k].0@ != id@,
            decreases n - i,
        {
            if self.entries[i].0 == *id {
                proof {
                    lemma_assoc_view_entry(self.entries@, i as int);
                }
                let mut entry = self.entries.remove(i);
                entry.1.set_value(time, value);
                proof {
                    lemma_assoc_view_update(old(self).entries@, i as int, entry);
                }
                self.entries.insert(i, entry);
                proof {
                    assert(self.entries@ =~= old(self).entries@.update(i as int, entry));
                }
                return ;
            }
            i += 1;
        }
        let key = id.clone();
        let first = Timeline::single(time, value);
        proof {
            lemma_assoc_view_absent(self.entries@, id@);
            lemma_assoc_view_push(self.entries@, (key, first));
        }
        self.entries.push((key, first));
    }

    /// Looks the timeline of `id` up.
    pub fn get(&self, id: &String) -> (r: Option<&Timeline>)
        requires
            self.wf(),
        ensures
            match r {
                Some(t) => self@.contains_key(id@) && t@ == self@[id@] && t.wf()
                    && t.entries@.len() > 0,
                None => !self@.contains_key(id@),
            },
    {
        let n = self.entries.len();
        let mut i: usize = 0;
        while i < n
            invariant
                i <= n,
                n == self.entries@.len(),
                self.wf(),
                forall|k: int| 0 <= k < i ==> self.entries@[k].0@ != id@,
            decreases n - i,
        {
            if self.entries[i].0 == *id {
                proof {
                    lemma_assoc_view_entry(self.entries@, i as int);
                }
                return Some(&self.entries[i].1);
            }
            i += 1;
        }
        proof {
            lemma_assoc_view_absent(self.entries@, id@);
        }
        None
    }

    /// The number of signals that received at least one change.
    pub fn len(&self) -> (r: usize)
        ensures
            r == self.entries@.len(),
    {
        self.entries.len()
    }
}

} // verus!
