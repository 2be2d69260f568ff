//! The dispatch queue: an unbounded first-in first-out buffer of completed
//! notes between the real-time input side (producer) and the rendering loop
//! (consumer).
//!
//! The consumer polls on a fixed tick and drains at most one note per tick;
//! a poll that finds the queue empty is a no-op, not an error. The contracts
//! below mention no clock at all: what a drain returns depends only on the
//! queue's contents, so delivery order is arrival order regardless of tick
//! timing. A burst of arrivals faster than one per tick accumulates and is
//! drained with increasing latency — a known limitation, not a failure.

use vstd::prelude::*;

use crate::note::NoteEvent;

verus! {

/// A FIFO buffer of notes awaiting rendering.
pub struct DispatchQueue {
    pub items: Vec<NoteEvent>,
}

impl DispatchQueue {
    /// An empty queue.
    pub fn new() -> (q: DispatchQueue)
        ensures
            q.items@ == Seq::<NoteEvent>::empty(),
    {
        DispatchQueue { items: Vec::new() }
    }

    /// Enqueues one completed note behind everything already queued.
    pub fn push(&mut self, ev: NoteEvent)
        ensures
            final(self).items@ == old(self).items@.push(ev),
    {
        self.items.push(ev);
    }

    /// Drains at most one note: the oldest queued note if there is one,
    /// nothing if the queue is empty.
    pub fn try_pop(&mut self) -> (r: Option<NoteEvent>)
        ensures
            old(self).items@.len() == 0 ==> r is None && final(self).items@ == old(self).items@,
            old(self).items@.len() > 0 ==> r == Some(old(self).items@[0]) && final(self).items@
                == old(self).items@.drop_first(),
    {
        if self.items.len() == 0 {
            None
        } else {
            let ev = self.items.remove(0);
            assert(self.items@ =~= old(self).items@.drop_first());
            Some(ev)
        }
    }

    /// How many notes are waiting.
    pub fn len(&self) -> (n: usize)
        ensures
            n == self.items@.len(),
    {
        self.items.len()
    }
}

/// Delivery order is arrival order. For any three notes arriving in the
/// order first, second, third on an empty queue, draining one per tick
/// yields exactly first, then second, then third, and leaves the queue
/// empty — the drain contract depends only on the queue's contents, never on
/// when the ticks happen.
pub proof fn lemma_dispatch_fifo(n1: NoteEvent, n2: NoteEvent, n3: NoteEvent)
    ensures
        ({
            let s = Seq::<NoteEvent>::empty().push(n1).push(n2).push(n3);
            &&& s.len() == 3
            &&& s[0] == n1
            &&& s.drop_first()[0] == n2
            &&& s.drop_first().drop_first()[0] == n3
            &&& s.drop_first().drop_first().drop_first().len() == 0
        }),
{
}

} // verus!
