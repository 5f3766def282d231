//! Tasks: process-unique identifiers, the suspendable computation a task
//! owns, and the poll operation that advances it by one step.

pub mod executor;
pub mod keyboard;

use vstd::prelude::*;

use crate::task::executor::TaskWaker;
use crate::task::keyboard::{decoded_keys, decoder_bytes, Key, Keypresses, ScancodeChannel};

verus! {

/// An opaque, totally ordered task identifier, assigned exactly once per
/// task at construction and never reused for the process lifetime.
#[derive(Clone, Copy, Debug, PartialEq, Eq, Structural)]
pub struct TaskId(pub u64);

/// Issues process-wide unique task identifiers from a monotone counter.
#[derive(Clone, Copy, Debug)]
pub struct TaskIdAllocator {
    pub next_id: u64,
}

impl TaskIdAllocator {
    pub fn new() -> (ids: TaskIdAllocator)
        ensures
            ids.next_id == 0,
    {
        TaskIdAllocator { next_id: 0 }
    }
}

impl TaskId {
    /// Draws a fresh identifier: equal to the allocator's counter, which
    /// then advances, so every identifier is issued at most once.
    pub fn new(ids: &mut TaskIdAllocator) -> (id: TaskId)
        requires
            old(ids).next_id < u64::MAX,
        ensures
            id.0 == old(ids).next_id,
            final(ids).next_id == old(ids).next_id + 1,
    {
        let id = TaskId(ids.next_id);
        ids.next_id = ids.next_id + 1;
        id
    }
}

/// What one poll of a task reports: the computation either completed or
/// suspended after registering interest in a future wake.
#[derive(Clone, Copy, Debug, PartialEq, Eq, Structural)]
pub enum Advance {
    Ready,
    Pending,
}

/// A suspendable computation: a tagged-state object advanced one step per
/// poll.  The task table holds the variants uniformly.
pub enum Computation {
    /// Reports `Ready` on its first poll and performs no work.
    Immediate,
    /// The keypress consumer: drains the event channel and never completes.
    Keypresses(Keypresses),
}

/// A spawned unit of work: one computation, its identifier, and a ghost
/// count of how many times it has been polled.
pub struct Task {
    pub id: TaskId,
    pub polls: Ghost<nat>,
    pub computation: Computation,
}

impl Task {
    /// Wraps a computation and assigns it a fresh identifier.
    pub fn new(ids: &mut TaskIdAllocator, computation: Computation) -> (t: Task)
        requires
            old(ids).next_id < u64::MAX,
        ensures
            t.id.0 == old(ids).next_id,
            final(ids).next_id == old(ids).next_id + 1,
            t.polls@ == 0,
            t.computation == computation,
    {
        Task { id: TaskId::new(ids), polls: Ghost(0nat), computation }
    }

    /// Advances the wrapped computation by exactly one poll.  An
    /// `Immediate` computation completes; the keypress consumer drains the
    /// channel, registers the waker it was handed, and suspends.
    pub fn poll(&mut self, waker: TaskWaker, chan: &mut ScancodeChannel, out: &mut Vec<Key>) -> (r:
        Advance)
        requires
            old(chan).wf(),
            old(self).computation is Keypresses ==> old(chan).is_init(),
        ensures
            final(chan).wf(),
            final(chan).is_init() == old(chan).is_init(),
            final(self).id == old(self).id,
            final(self).polls@ == old(self).polls@ + 1,
            (final(self).computation is Keypresses) == (old(self).computation is Keypresses),
            old(out)@.is_prefix_of(final(out)@),
            old(self).computation is Immediate ==> (r == Advance::Ready && *final(chan) == *old(chan) && *final(out) == *old(out)),
            old(self).computation is Keypresses ==> (r == Advance::Pending && final(chan).bytes()
                == Seq::<u8>::empty() && final(chan).slot() == Some(waker)),
            old(self).computation is Keypresses ==> ({
                let kb0 = old(self).computation->Keypresses_0.keyboard;
                let kb1 = final(self).computation->Keypresses_0.keyboard;
                &&& decoder_bytes(kb1) == decoder_bytes(kb0) + old(chan).bytes()
                &&& decoded_keys(decoder_bytes(kb0)).is_prefix_of(
                    decoded_keys(decoder_bytes(kb1)),
                )
                &&& final(out)@ == old(out)@ + decoded_keys(decoder_bytes(kb1)).skip(
                    decoded_keys(decoder_bytes(kb0)).len() as int,
                )
            }),
            final(out)@.len() <= old(out)@.len() + old(chan).bytes().len(),
    {
        self.polls = Ghost(self.polls@ + 1);
        match &mut self.computation {
            Computation::Immediate => Advance::Ready,
            Computation::Keypresses(consumer) => consumer.advance(waker, chan, out),
        }
    }
}

} // verus!
