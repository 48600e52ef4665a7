//! The work queue: identifiers of accepted jobs on their way to the worker,
//! first in, first out, and never more of them than the queue's capacity.

use std::collections::VecDeque;
use vstd::prelude::*;

verus! {

/// What became of an identifier that was offered to the queue.
#[derive(Clone, Copy, Debug, PartialEq, Eq, Structural)]
pub enum Push {
    /// The identifier is now last in the queue.
    Queued,
    /// The queue holds as many identifiers as it may: the caller waits for the
    /// worker to take one and offers again.
    Full,
    /// The worker has stopped and will take nothing more.
    Closed,
}

/// A bounded queue of job identifiers between submission and the worker.
pub struct WorkQueue {
    items: VecDeque<u128>,
    capacity: usize,
    closed: bool,
}

impl View for WorkQueue {
    type V = Seq<u128>;

    closed spec fn view(&self) -> Seq<u128> {
        self.items@
    }
}

impl WorkQueue {
    #[verifier::type_invariant]
    spec fn within_capacity(self) -> bool {
        self.items@.len() <= self.capacity
    }

    /// The most identifiers that the queue holds at a time.
    pub closed spec fn limit(self) -> nat {
        self.capacity as nat
    }

    /// Whether the worker has stopped taking identifiers.
    pub closed spec fn shut(self) -> bool {
        self.closed
    }

    /// The queue with other identifiers in it and nothing else changed.
    pub open spec fn holds(self, before: WorkQueue, items: Seq<u128>) -> bool {
        &&& self@ == items
        &&& self.limit() == before.limit()
        &&& self.shut() == before.shut()
    }

    /// An empty queue for at most `capacity` identifiers.
    pub fn new(capacity: usize) -> (queue: WorkQueue)
        ensures
            queue@ == Seq::<u128>::empty(),
            queue.limit() == capacity,
            !queue.shut(),
    {
        WorkQueue { items: VecDeque::new(), capacity, closed: false }
    }

    /// The number of identifiers waiting.
    pub fn len(&self) -> (count: usize)
        ensures
            count == self@.len(),
            count <= self.limit(),
    {
        proof {
            use_type_invariant(self);
        }
        self.items.len()
    }

    /// The most identifiers that the queue holds at a time.
    pub fn capacity(&self) -> (capacity: usize)
        ensures
            capacity == self.limit(),
            self@.len() <= self.limit(),
    {
        proof {
            use_type_invariant(self);
        }
        self.capacity
    }

    /// Whether the queue holds as many identifiers as it may.
    pub fn is_full(&self) -> (full: bool)
        ensures
            full == (self@.len() == self.limit()),
            self@.len() <= self.limit(),
    {
        proof {
            use_type_invariant(self);
        }
        self.items.len() >= self.capacity
    }

    /// Whether the worker has stopped taking identifiers.
    pub fn is_closed(&self) -> (closed: bool)
        ensures
            closed == self.shut(),
    {
        self.closed
    }

    /// Offers an identifier to the queue.
    ///
    /// It is appended unless the queue is closed or full; in both of these
    /// cases the queue stays as it was and the caller keeps the identifier.
    pub fn push(&mut self, id: u128) -> (outcome: Push)
        ensures
            old(self).shut() ==> outcome == Push::Closed,
            !old(self).shut() && old(self)@.len() == old(self).limit() ==> outcome == Push::Full,
            !old(self).shut() && old(self)@.len() < old(self).limit() ==> outcome == Push::Queued,
            final(self).holds(
                *old(self),
                if outcome == Push::Queued {
                    old(self)@.push(id)
                } else {
                    old(self)@
                },
            ),
            final(self)@.len() <= final(self).limit(),
    {
        proof {
            use_type_invariant(&*self);
        }
        if self.closed {
            return Push::Closed;
        }
        if self.items.len() >= self.capacity {
            return Push::Full;
        }
        let mut items: VecDeque<u128> = VecDeque::new();
        std::mem::swap(&mut self.items, &mut items);
        items.push_back(id);
        std::mem::swap(&mut self.items, &mut items);
        Push::Queued
    }

    /// Takes the identifier that has waited longest, if any waits.
    pub fn pop(&mut self) -> (next: Option<u128>)
        ensures
            match next {
                Some(id) => old(self)@.len() > 0 && id == old(self)@[0] && final(self).holds(
                    *old(self),
                    old(self)@.skip(1),
                ),
                None => old(self)@.len() == 0 && final(self).holds(*old(self), old(self)@),
            },
    {
        proof {
            use_type_invariant(&*self);
        }
        let mut items: VecDeque<u128> = VecDeque::new();
        std::mem::swap(&mut self.items, &mut items);
        let next = items.pop_front();
        std::mem::swap(&mut self.items, &mut items);
        proof {
            if next is Some {
                assert(self@ =~= old(self)@.skip(1));
            }
        }
        next
    }

    /// Marks the queue as closed: from now on every offer is turned down.
    pub fn close(&mut self)
        ensures
            final(self)@ == old(self)@,
            final(self).limit() == old(self).limit(),
            final(self).shut(),
    {
        proof {
            use_type_invariant(&*self);
        }
        self.closed = true;
    }
}

} // verus!
