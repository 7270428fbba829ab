//! A bounded undo history with a redo history.

use vstd::prelude::*;
use ropey::Rope;

verus! {

/// The state of a buffer that an undo or redo brings back.
#[derive(Debug, Clone)]
pub struct Snapshot {
    pub content: Rope,
    pub cursor_line: usize,
    pub cursor_col: usize,
    pub state_id: u64,
}

pub struct UndoStack {
    undo: Vec<Snapshot>,
    redo: Vec<Snapshot>,
    max_size: usize,
}

/// The undo history after `snap` is recorded on top of `undo`, with the
/// oldest entry dropped when the history was full.
pub open spec fn pushed_capped(undo: Seq<Snapshot>, snap: Snapshot, max: nat) -> Seq<Snapshot> {
    if undo.len() >= max && undo.len() > 0 {
        undo.drop_first().push(snap)
    } else {
        undo.push(snap)
    }
}

/// How many snapshots the undo and redo histories hold together at most.
pub const UNDO_LIMIT: usize = 1000;

impl UndoStack {
    /// The histories hold no more than `UNDO_LIMIT` snapshots together.
    #[verifier::type_invariant]
    spec fn bounded(self) -> bool {
        &&& self.max_size == UNDO_LIMIT
        &&& self.undo@.len() + self.redo@.len() <= self.max_size
    }

    /// The snapshots that undo brings back, the most recent last.
    pub closed spec fn undo_entries(self) -> Seq<Snapshot> {
        self.undo@
    }

    /// The snapshots that redo brings back, the most recent last.
    pub closed spec fn redo_entries(self) -> Seq<Snapshot> {
        self.redo@
    }

    /// How many snapshots the undo history keeps at most.
    pub closed spec fn capacity(self) -> nat {
        self.max_size as nat
    }

    /// What `push` does: record `snap` and forget what could be redone.
    pub open spec fn pushed(before: Self, snap: Snapshot, after: Self) -> bool {
        &&& after.undo_entries() == pushed_capped(before.undo_entries(), snap, before.capacity())
        &&& after.redo_entries() == Seq::<Snapshot>::empty()
        &&& after.capacity() == before.capacity()
    }

    /// What `undo` does: hand back the latest undo entry and keep `current`
    /// for redo; with no entry, nothing changes.
    pub open spec fn undone(before: Self, current: Snapshot, after: Self, res: Option<Snapshot>) -> bool {
        &&& after.capacity() == before.capacity()
        &&& if before.undo_entries().len() > 0 {
            &&& res == Some(before.undo_entries().last())
            &&& after.undo_entries() == before.undo_entries().drop_last()
            &&& after.redo_entries() == before.redo_entries().push(current)
        } else {
            &&& res == None::<Snapshot>
            &&& after.undo_entries() == before.undo_entries()
            &&& after.redo_entries() == before.redo_entries()
        }
    }

    /// What `redo` does: hand back the latest redo entry and keep `current`
    /// for undo; with no entry, nothing changes.
    pub open spec fn redone(before: Self, current: Snapshot, after: Self, res: Option<Snapshot>) -> bool {
        &&& after.capacity() == before.capacity()
        &&& if before.redo_entries().len() > 0 {
            &&& res == Some(before.redo_entries().last())
            &&& after.redo_entries() == before.redo_entries().drop_last()
            &&& after.undo_entries() == before.undo_entries().push(current)
        } else {
            &&& res == None::<Snapshot>
            &&& after.undo_entries() == before.undo_entries()
            &&& after.redo_entries() == before.redo_entries()
        }
    }

    pub fn new() -> (s: Self)
        ensures
            s.undo_entries() == Seq::<Snapshot>::empty(),
            s.redo_entries() == Seq::<Snapshot>::empty(),
            s.capacity() == UNDO_LIMIT,
    {
        Self { undo: Vec::new(), redo: Vec::new(), max_size: UNDO_LIMIT }
    }

    /// Every stack holds at most `UNDO_LIMIT` snapshots in its two histories
    /// together, and its capacity is that limit.
    pub fn entries_within_limit(&self) -> (b: bool)
        ensures
            b,
            self.capacity() == UNDO_LIMIT,
            self.undo_entries().len() + self.redo_entries().len() <= UNDO_LIMIT,
    {
        proof {
            use_type_invariant(self);
        }
        true
    }

    /// Moves both histories out, leaving them empty.
    fn take_histories(&mut self) -> (h: (Vec<Snapshot>, Vec<Snapshot>))
        ensures
            h.0@ == old(self).undo@,
            h.1@ == old(self).redo@,
            final(self).undo@.len() == 0,
            final(self).redo@.len() == 0,
            final(self).max_size == old(self).max_size,
    {
        proof {
            use_type_invariant(&*self);
        }
        let mut undo: Vec<Snapshot> = Vec::new();
        let mut redo: Vec<Snapshot> = Vec::new();
        std::mem::swap(&mut self.undo, &mut undo);
        std::mem::swap(&mut self.redo, &mut redo);
        (undo, redo)
    }

    pub fn push(&mut self, snapshot: Snapshot)
        ensures
            Self::pushed(*old(self), snapshot, *final(self)),
            final(self).capacity() == UNDO_LIMIT,
            final(self).undo_entries().len() + final(self).redo_entries().len() <= UNDO_LIMIT,
    {
        proof {
            use_type_invariant(&*self);
        }
        let (mut undo, _redo) = self.take_histories();
        if undo.len() >= UNDO_LIMIT && undo.len() > 0 {
            undo.remove(0);
        }
        undo.push(snapshot);
        proof {
            if old(self).undo@.len() >= old(self).max_size && old(self).undo@.len() > 0 {
                assert(old(self).undo@.remove(0) =~= old(self).undo@.drop_first());
            }
        }
        *self = UndoStack { undo, redo: Vec::new(), max_size: UNDO_LIMIT };
    }

    pub fn undo(&mut self, current: Snapshot) -> (res: Option<Snapshot>)
        ensures
            Self::undone(*old(self), current, *final(self), res),
            final(self).capacity() == UNDO_LIMIT,
            final(self).undo_entries().len() + final(self).redo_entries().len() <= UNDO_LIMIT,
    {
        proof {
            use_type_invariant(&*self);
        }
        let (mut undo, mut redo) = self.take_histories();
        let res = match undo.pop() {
            Some(prev) => {
                redo.push(current);
                Some(prev)
            },
            None => None,
        };
        *self = UndoStack { undo, redo, max_size: UNDO_LIMIT };
        res
    }

    pub fn redo(&mut self, current: Snapshot) -> (res: Option<Snapshot>)
        ensures
            Self::redone(*old(self), current, *final(self), res),
            final(self).capacity() == UNDO_LIMIT,
            final(self).undo_entries().len() + final(self).redo_entries().len() <= UNDO_LIMIT,
    {
        proof {
            use_type_invariant(&*self);
        }
        let (mut undo, mut redo) = self.take_histories();
        let res = match redo.pop() {
            Some(next) => {
                undo.push(current);
                Some(next)
            },
            None => None,
        };
        *self = UndoStack { undo, redo, max_size: UNDO_LIMIT };
        res
    }
}

/// Undoing and then redoing with what the undo handed back returns the
/// current state and leaves both histories as they were.
pub proof fn law_redo_reverts_undo(
    s0: UndoStack,
    current: Snapshot,
    s1: UndoStack,
    prev: Snapshot,
    s2: UndoStack,
    res: Option<Snapshot>,
)
    requires
        UndoStack::undone(s0, current, s1, Some(prev)),
        UndoStack::redone(s1, prev, s2, res),
    ensures
        res == Some(current),
        s2.undo_entries() == s0.undo_entries(),
        s2.redo_entries() == s0.redo_entries(),
{
    assert(s0.undo_entries().len() > 0);
    assert(s1.redo_entries().last() == current);
    assert(s0.undo_entries().drop_last().push(prev) =~= s0.undo_entries());
    assert(s0.redo_entries().push(current).drop_last() =~= s0.redo_entries());
}

/// Redoing and then undoing with what the redo handed back returns the
/// current state and leaves both histories as they were.
pub proof fn law_undo_reverts_redo(
    s0: UndoStack,
    current: Snapshot,
    s1: UndoStack,
    next: Snapshot,
    s2: UndoStack,
    res: Option<Snapshot>,
)
    requires
        UndoStack::redone(s0, current, s1, Some(next)),
        UndoStack::undone(s1, next, s2, res),
    ensures
        res == Some(current),
        s2.undo_entries() == s0.undo_entries(),
        s2.redo_entries() == s0.redo_entries(),
{
    assert(s0.redo_entries().len() > 0);
    assert(s0.redo_entries().drop_last().push(next) =~= s0.redo_entries());
    assert(s0.undo_entries().push(current).drop_last() =~= s0.undo_entries());
}

/// After a push, an undo hands back the pushed snapshot.
pub proof fn law_undo_after_push(
    s0: UndoStack,
    snap: Snapshot,
    s1: UndoStack,
    current: Snapshot,
    s2: UndoStack,
    res: Option<Snapshot>,
)
    requires
        UndoStack::pushed(s0, snap, s1),
        UndoStack::undone(s1, current, s2, res),
    ensures
        res == Some(snap),
        s2.redo_entries() == seq![current],
{
    assert(s1.undo_entries().len() > 0);
}

/// Push, undo and redo keep the two histories together within the limit:
/// a push drops the oldest entry when the undo history is full and forgets
/// the redo history, and undo and redo only move one snapshot across.
pub proof fn law_undo_history_stays_within_limit(
    s0: UndoStack,
    snap: Snapshot,
    current: Snapshot,
    s1: UndoStack,
    res: Option<Snapshot>,
)
    requires
        s0.capacity() == UNDO_LIMIT,
        s0.undo_entries().len() + s0.redo_entries().len() <= UNDO_LIMIT,
    ensures
        UndoStack::pushed(s0, snap, s1) ==> s1.capacity() == UNDO_LIMIT
            && s1.undo_entries().len() + s1.redo_entries().len() <= UNDO_LIMIT,
        UndoStack::undone(s0, current, s1, res) ==> s1.capacity() == UNDO_LIMIT
            && s1.undo_entries().len() + s1.redo_entries().len() <= UNDO_LIMIT,
        UndoStack::redone(s0, current, s1, res) ==> s1.capacity() == UNDO_LIMIT
            && s1.undo_entries().len() + s1.redo_entries().len() <= UNDO_LIMIT,
{
}

} // verus!
