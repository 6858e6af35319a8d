//! The journal: a bounded history of stack snapshots.
//!
//! The journal keeps the most recent snapshots, at most as many as it was made for, in a
//! ring: once it is full, each new snapshot takes the place of the oldest one. Its view is
//! the history in chronological order, the oldest snapshot first.
use crate::expr::{trees, Expr, Tree};
use vstd::prelude::*;

verus! {

/// The number of snapshots that a journal keeps where journaling is on and no number is
/// given.
pub const DEFAULT_MAX_LEN: usize = 20;

/// The history after one more snapshot: the snapshot behind the others, and the oldest one
/// gone where that would be more than `max`.
pub open spec fn recorded<S>(history: Seq<S>, snapshot: S, max: nat) -> Seq<S> {
    if max == 0 {
        history
    } else if history.len() < max {
        history.push(snapshot)
    } else {
        history.drop_first().push(snapshot)
    }
}

/// The history after the given snapshots, recorded one after the other.
pub open spec fn recorded_all<S>(history: Seq<S>, snapshots: Seq<S>, max: nat) -> Seq<S>
    decreases snapshots.len(),
{
    if snapshots.len() == 0 {
        history
    } else {
        recorded(recorded_all(history, snapshots.drop_last(), max), snapshots.last(), max)
    }
}

/// The last `n` elements of a sequence, or all of it where it has no more.
pub open spec fn latest<S>(all: Seq<S>, n: nat) -> Seq<S> {
    if all.len() <= n {
        all
    } else {
        all.skip(all.len() - n)
    }
}

/// The journal holds the most recent snapshots in chronological order. A journal for `max`
/// snapshots that recorded `snapshots` on top of a history of at most `max` holds the last
/// `max` of them all, in the order in which they were recorded; so after `max` snapshots or
/// more it holds exactly `max`.
pub proof fn lemma_journal_keeps_latest<S>(history: Seq<S>, snapshots: Seq<S>, max: nat)
    requires
        history.len() <= max,
    ensures
        recorded_all(history, snapshots, max) == latest(history + snapshots, max),
        history.len() + snapshots.len() >= max ==> recorded_all(history, snapshots, max).len()
            == max,
    decreases snapshots.len(),
{
    if snapshots.len() == 0 {
        assert(history + snapshots =~= history);
    } else {
        let front = snapshots.drop_last();
        lemma_journal_keeps_latest(history, front, max);
        let before = history + front;
        let all = history + snapshots;
        assert(all =~= before.push(snapshots.last()));
        assert(recorded(latest(before, max), snapshots.last(), max) =~= latest(all, max));
    }
}

/// A bounded history of stack snapshots.
#[derive(Debug)]
pub struct Journal {
    /// The snapshots, in a ring: the oldest at `start`, the newest before it.
    slots: Vec<Vec<Expr>>,
    /// The index of the oldest snapshot.
    start: usize,
    /// The number of snapshots that the journal keeps.
    max_len: usize,
}

impl Journal {
    /// Whether the ring is well formed: it holds at most `max_len` snapshots, and the oldest
    /// one is the first until it is full.
    pub closed spec fn wf(&self) -> bool {
        &&& self.slots.len() <= self.max_len
        &&& self.start <= self.slots.len()
        &&& self.slots.len() < self.max_len ==> self.start == 0
        &&& self.slots.len() > 0 ==> self.start < self.slots.len()
    }

    /// The number of snapshots that the journal keeps.
    pub closed spec fn capacity(&self) -> nat {
        self.max_len as nat
    }

    /// The history, the oldest snapshot first.
    pub closed spec fn history(&self) -> Seq<Seq<Tree>> {
        Seq::new(
            self.slots.len() as nat,
            |i: int|
                if i < self.slots.len() - self.start {
                    trees(self.slots@[self.start + i]@)
                } else {
                    trees(self.slots@[i - (self.slots.len() - self.start)]@)
                },
        )
    }

    /// An empty journal that keeps `max_len` snapshots.
    pub fn new(max_len: usize) -> (journal: Journal)
        ensures
            journal.wf(),
            journal.capacity() == max_len,
            journal.history() == Seq::<Seq<Tree>>::empty(),
    {
        let journal = Journal { slots: Vec::new(), start: 0, max_len };
        assert(journal.history() =~= Seq::<Seq<Tree>>::empty());
        journal
    }

    /// The number of snapshots that the journal keeps.
    pub fn max_len(&self) -> (n: usize)
        ensures
            n == self.capacity(),
    {
        self.max_len
    }

    /// The number of snapshots in the journal, which is never more than it keeps.
    pub fn len(&self) -> (n: usize)
        requires
            self.wf(),
        ensures
            n == self.history().len(),
            n <= self.capacity(),
    {
        self.slots.len()
    }

    /// The snapshot at place `index` of the history, the oldest being at place 0.
    pub fn get(&self, index: usize) -> (snapshot: Option<&Vec<Expr>>)
        requires
            self.wf(),
        ensures
            match snapshot {
                Some(s) => index < self.history().len() && trees(s@) == self.history()[
                    index as int
                ],
                None => index >= self.history().len(),
            },
    {
        let n = self.slots.len();
        if index >= n {
            None
        } else if index < n - self.start {
            Some(&self.slots[self.start + index])
        } else {
            Some(&self.slots[index - (n - self.start)])
        }
    }

    /// Records a snapshot: it becomes the newest, and where the journal was full the oldest
    /// one leaves.
    pub fn push(&mut self, snapshot: Vec<Expr>)
        requires
            old(self).wf(),
        ensures
            final(self).wf(),
            final(self).capacity() == old(self).capacity(),
            final(self).history() == recorded(
                old(self).history(),
                trees(snapshot@),
                old(self).capacity(),
            ),
    {
        if self.max_len == 0 {
            return ;
        }
        let ghost before = self.history();
        let n = self.slots.len();
        if n < self.max_len {
            self.slots.push(snapshot);
            assert(self.history() =~= before.push(trees(snapshot@)));
        } else {
            let mut snapshot = snapshot;
            let start = self.start;
            core::mem::swap(&mut self.slots[start], &mut snapshot);
            self.start = if start + 1 == n {
                0
            } else {
                start + 1
            };
            assert(self.history() =~= before.drop_first().push(trees(self.slots@[start as int]@)));
        }
    }
}

} // verus!
