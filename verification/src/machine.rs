//! The machine around the executor: the event-channel singleton, the
//! output sink, and a mock interrupt controller, so that the run loop and
//! its race-free idle path can be stated and checked.
//!
//! The controller models one fact about the hardware: a scancode that is
//! pending while interrupts are disabled fires as soon as they are
//! re-enabled.  The idle path re-enables interrupts and halts in one
//! indivisible step, so a pending interrupt is delivered by that very
//! step and ends the halt — the wake cannot fall between "enable" and
//! "halt" and be slept through.

use vstd::prelude::*;

use crate::task::executor::{
    lone_consumer, queued_immediate_gone, queued_polled, tasks_descend, Executor, TaskWaker,
    lemma_queued_polled_descend, lemma_tasks_descend_trans, TASK_QUEUE_CAPACITY,
};
use crate::task::keyboard::{add_scancode, decoded_keys, decoder_bytes, lemma_key_prefix_chain,
    Key, Publish, ScancodeChannel, SCANCODE_QUEUE_CAPACITY};
use crate::task::{Computation, Task, TaskId, TaskIdAllocator};
use crate::Fatal;

verus! {

/// A prefix relation between two output histories, shown from pointwise
/// agreement.
proof fn lemma_prefix_from_pointwise(a: Seq<Key>, b: Seq<Key>)
    requires
        a.len() <= b.len(),
        forall|i: int| 0 <= i < a.len() ==> a[i] == b[i],
    ensures
        a.is_prefix_of(b),
{
    assert(a =~= b.subrange(0, a.len() as int));
}

/// The converse: a prefix agrees pointwise with the longer history.
proof fn lemma_pointwise_from_prefix(a: Seq<Key>, b: Seq<Key>)
    requires
        a.is_prefix_of(b),
    ensures
        a.len() <= b.len(),
        forall|i: int| 0 <= i < a.len() ==> a[i] == b[i],
{
    assert forall|i: int| 0 <= i < a.len() implies a[i] == b[i] by {
        assert(a[i] == b.subrange(0, a.len() as int)[i]);
    }
}

/// The whole single-core system: the executor, the channel singleton, the
/// identifier allocator, the decoded-key output sink, and the mock
/// interrupt controller (`pending` scancodes not yet fired, and whether
/// the CPU is halted).
pub struct Machine {
    pub executor: Executor,
    pub channel: ScancodeChannel,
    pub ids: TaskIdAllocator,
    pub pending: Vec<u8>,
    pub halted: bool,
    pub output: Vec<Key>,
}

impl Machine {
    pub open spec fn wf(self) -> bool {
        &&& self.executor.wf()
        &&& self.channel.wf()
        &&& self.executor.has_consumer() ==> self.channel.is_init()
        &&& forall|id: u64| #[trigger]
            self.executor.tasks@.contains_key(id) ==> id < self.ids.next_id
    }

    pub fn new() -> (m: Machine)
        ensures
            m.wf(),
            !m.halted,
            !m.channel.is_init(),
            m.channel.slot() is None,
            m.pending@ == Seq::<u8>::empty(),
            m.output@ == Seq::<Key>::empty(),
            m.executor.tasks@ == Map::<u64, Task>::empty(),
            m.executor.waker_cache@ == Map::<u64, TaskWaker>::empty(),
            m.executor.ready_ids() == Seq::<u64>::empty(),
            m.ids.next_id == 0,
    {
        Machine {
            executor: Executor::new(),
            channel: ScancodeChannel::new(),
            ids: TaskIdAllocator::new(),
            pending: Vec::new(),
            halted: false,
            output: Vec::new(),
        }
    }

    /// Spawns a task around the given computation under a fresh
    /// identifier.  A fresh identifier can never collide with a live
    /// task, so success is owed whenever the ready queue has room; the
    /// only fatal outcome is a full ready queue.
    pub fn spawn(&mut self, computation: Computation) -> (r: Result<TaskId, Fatal>)
        requires
            old(self).wf(),
            old(self).ids.next_id < u64::MAX,
            computation is Keypresses ==> old(self).channel.is_init(),
        ensures
            final(self).wf(),
            final(self).channel == old(self).channel,
            final(self).pending == old(self).pending,
            final(self).output == old(self).output,
            final(self).halted == old(self).halted,
            final(self).ids.next_id == old(self).ids.next_id + 1,
            old(self).executor.ready_ids().len() < TASK_QUEUE_CAPACITY ==> (r == Ok::<
                TaskId,
                Fatal,
            >(TaskId(old(self).ids.next_id)) && final(self).executor.ready_ids() == old(self).executor.ready_ids().push(old(self).ids.next_id) && final(self).executor.tasks@.contains_key(old(self).ids.next_id) && (final(self).executor.tasks@[old(self).ids.next_id].computation == computation) && final(self).executor.tasks@[old(self).ids.next_id].polls@ == 0 && final(self).executor.tasks@.dom() == old(self).executor.tasks@.dom().insert(
                old(self).ids.next_id,
            ) && (forall|k: u64|
                (k != old(self).ids.next_id && #[trigger] old(self).executor.tasks@.contains_key(
                    k,
                )) ==> final(self).executor.tasks@[k] == old(self).executor.tasks@[k]) && final(self).executor.waker_cache@ == old(self).executor.waker_cache@),
            old(self).executor.ready_ids().len() >= TASK_QUEUE_CAPACITY ==> (r == Err::<
                TaskId,
                Fatal,
            >(Fatal::ReadyQueueFull) && final(self).executor == old(self).executor),
    {
        let task = Task::new(&mut self.ids, computation);
        let id = task.id;
        proof {
            assert(!old(self).executor.tasks@.contains_key(id.0));
        }
        match self.executor.spawn(task) {
            Ok(()) => Ok(id),
            Err(fatal) => Err(fatal),
        }
    }

    /// A hardware interrupt firing right now with one scancode: the
    /// handler publishes it into the channel (waking the registered waker
    /// if any), and any halt ends.
    pub fn interrupt(&mut self, scancode: u8) -> (r: Result<Publish, Fatal>)
        requires
            old(self).wf(),
        ensures
            final(self).wf(),
            !final(self).halted,
            final(self).pending == old(self).pending,
            final(self).output == old(self).output,
            final(self).ids == old(self).ids,
            final(self).executor.tasks@ == old(self).executor.tasks@,
            final(self).executor.waker_cache@ == old(self).executor.waker_cache@,
            final(self).channel.is_init() == old(self).channel.is_init(),
            !old(self).channel.is_init() ==> (r == Ok::<Publish, Fatal>(
                Publish::DroppedUninitialized,
            ) && final(self).channel == old(self).channel && final(self).executor.ready_ids()
                == old(self).executor.ready_ids()),
            (old(self).channel.is_init() && old(self).channel.bytes().len()
                >= SCANCODE_QUEUE_CAPACITY) ==> (r == Err::<Publish, Fatal>(
                Fatal::ScancodeQueueFull,
            ) && final(self).channel == old(self).channel && final(self).executor.ready_ids()
                == old(self).executor.ready_ids()),
            (old(self).channel.is_init() && old(self).channel.bytes().len()
                < SCANCODE_QUEUE_CAPACITY) ==> final(self).channel.bytes() == old(self).channel.bytes().push(scancode),
            (old(self).channel.is_init() && old(self).channel.bytes().len()
                < SCANCODE_QUEUE_CAPACITY && old(self).channel.slot() is None) ==> (r == Ok::<
                Publish,
                Fatal,
            >(Publish::Enqueued) && final(self).channel.slot() is None && final(self).executor.ready_ids() == old(self).executor.ready_ids()),
            (old(self).channel.is_init() && old(self).channel.bytes().len()
                < SCANCODE_QUEUE_CAPACITY && old(self).channel.slot() is Some && old(self).executor.ready_ids().len() < TASK_QUEUE_CAPACITY) ==> (r == Ok::<Publish, Fatal>(
                Publish::EnqueuedAndWoken,
            ) && final(self).channel.slot() is None && final(self).executor.ready_ids() == old(self).executor.ready_ids().push(old(self).channel.slot()->0.task_id.0)),
            (old(self).channel.is_init() && old(self).channel.bytes().len()
                < SCANCODE_QUEUE_CAPACITY && old(self).channel.slot() is Some && old(self).executor.ready_ids().len() >= TASK_QUEUE_CAPACITY) ==> (r == Err::<Publish, Fatal>(
                Fatal::ReadyQueueFull,
            ) && final(self).channel.slot() is None && final(self).executor.ready_ids() == old(self).executor.ready_ids()),
    {
        self.halted = false;
        add_scancode(&mut self.channel, &mut self.executor.task_queue, scancode)
    }

    /// The race-free idle check.  Models: disable interrupts; check the
    /// ready queue; then — in one indivisible step — re-enable interrupts
    /// and, only if the queue was empty, halt.  A scancode pending at
    /// that boundary fires within the same step (the handler publishes it
    /// and wakes the consumer) and the halt ends at once, so the machine
    /// never stays halted while work is queued or an interrupt is
    /// pending: any weaker sequencing would lose that wakeup.
    pub fn sleep_if_idle(&mut self) -> (r: Result<(), Fatal>)
        requires
            old(self).wf(),
        ensures
            final(self).wf(),
            final(self).halted ==> (final(self).executor.ready_ids().len() == 0 && final(self).pending@.len() == 0),
            old(self).pending@.len() > 0 ==> !final(self).halted,
            final(self).executor.tasks@ == old(self).executor.tasks@,
            final(self).executor.waker_cache@ == old(self).executor.waker_cache@,
            final(self).output == old(self).output,
            final(self).ids == old(self).ids,
            final(self).channel.is_init() == old(self).channel.is_init(),
            old(self).pending@.len() == 0 ==> (r == Ok::<(), Fatal>(()) && final(self).channel
                == old(self).channel && final(self).executor.ready_ids() == old(self).executor.ready_ids() && final(self).pending == old(self).pending && final(self).halted == (old(self).executor.ready_ids().len() == 0)),
            old(self).pending@.len() > 0 ==> final(self).pending@ == old(self).pending@.subrange(
                1,
                old(self).pending@.len() as int,
            ),
            (old(self).pending@.len() > 0 && old(self).channel.is_init() && old(self).channel.bytes().len() < SCANCODE_QUEUE_CAPACITY) ==> final(self).channel.bytes()
                == old(self).channel.bytes().push(old(self).pending@[0]),
            (old(self).pending@.len() > 0 && old(self).channel.is_init() && old(self).channel.bytes().len() < SCANCODE_QUEUE_CAPACITY && old(self).channel.slot() is Some && old(self).executor.ready_ids().len()
                < TASK_QUEUE_CAPACITY) ==> (r == Ok::<(), Fatal>(()) && final(self).executor.ready_ids() == old(self).executor.ready_ids().push(
                old(self).channel.slot()->0.task_id.0,
            )),
            (old(self).pending@.len() > 0 && !old(self).channel.is_init()) ==> (r == Ok::<
                (),
                Fatal,
            >(()) && final(self).channel == old(self).channel && final(self).executor.ready_ids()
                == old(self).executor.ready_ids()),
            (old(self).pending@.len() > 0 && old(self).channel.is_init() && old(self).channel.bytes().len() >= SCANCODE_QUEUE_CAPACITY) ==> (r == Err::<(), Fatal>(
                Fatal::ScancodeQueueFull,
            ) && final(self).channel == old(self).channel && final(self).executor.ready_ids()
                == old(self).executor.ready_ids()),
            (old(self).pending@.len() > 0 && old(self).channel.is_init() && old(self).channel.bytes().len() < SCANCODE_QUEUE_CAPACITY && old(self).channel.slot() is None) ==> (r == Ok::<(), Fatal>(()) && final(self).channel.slot() is None && final(self).executor.ready_ids() == old(self).executor.ready_ids()),
            (old(self).pending@.len() > 0 && old(self).channel.is_init() && old(self).channel.bytes().len() < SCANCODE_QUEUE_CAPACITY && old(self).channel.slot() is Some && old(self).executor.ready_ids().len()
                >= TASK_QUEUE_CAPACITY) ==> (r == Err::<(), Fatal>(Fatal::ReadyQueueFull) && final(self).executor.ready_ids() == old(self).executor.ready_ids()),
    {
        // Interrupts are disabled here, so the emptiness check cannot race
        // with a handler.
        let idle = crate::queues::task_queue_is_empty(&self.executor.task_queue);
        if self.pending.len() > 0 {
            // The indivisible enable(-and-halt) step: the pending
            // interrupt fires inside it, so no halt survives it.
            let scancode = self.pending.remove(0);
            self.halted = false;
            match self.interrupt_fires(scancode) {
                Ok(_) => Ok(()),
                Err(fatal) => Err(fatal),
            }
        } else {
            // Nothing fired between check and halt: halt exactly when the
            // ready queue was seen empty.
            self.halted = idle;
            Ok(())
        }
    }

    /// The interrupt handler's work when a pending scancode fires: the
    /// publish path, shared by `interrupt` and the idle-path delivery.
    fn interrupt_fires(&mut self, scancode: u8) -> (r: Result<Publish, Fatal>)
        requires
            old(self).executor.wf(),
            old(self).channel.wf(),
            old(self).executor.has_consumer() ==> old(self).channel.is_init(),
        ensures
            final(self).executor.wf(),
            final(self).channel.wf(),
            final(self).halted == old(self).halted,
            final(self).pending == old(self).pending,
            final(self).output == old(self).output,
            final(self).ids == old(self).ids,
            final(self).executor.tasks@ == old(self).executor.tasks@,
            final(self).executor.waker_cache@ == old(self).executor.waker_cache@,
            final(self).channel.is_init() == old(self).channel.is_init(),
            (old(self).channel.is_init() && old(self).channel.bytes().len()
                < SCANCODE_QUEUE_CAPACITY) ==> final(self).channel.bytes() == old(self).channel.bytes().push(scancode),
            !old(self).channel.is_init() ==> (r is Ok && final(self).channel == old(self).channel
                && final(self).executor.ready_ids() == old(self).executor.ready_ids()),
            (old(self).channel.is_init() && old(self).channel.bytes().len()
                >= SCANCODE_QUEUE_CAPACITY) ==> (r == Err::<Publish, Fatal>(
                Fatal::ScancodeQueueFull,
            ) && final(self).channel == old(self).channel && final(self).executor.ready_ids()
                == old(self).executor.ready_ids()),
            (old(self).channel.is_init() && old(self).channel.bytes().len()
                < SCANCODE_QUEUE_CAPACITY && old(self).channel.slot() is None) ==> (r is Ok
                && final(self).channel.slot() is None && final(self).executor.ready_ids() == old(self).executor.ready_ids()),
            (old(self).channel.is_init() && old(self).channel.bytes().len()
                < SCANCODE_QUEUE_CAPACITY && old(self).channel.slot() is Some && old(self).executor.ready_ids().len() < TASK_QUEUE_CAPACITY) ==> (r is Ok && final(self).executor.ready_ids() == old(self).executor.ready_ids().push(
                old(self).channel.slot()->0.task_id.0,
            )),
            (old(self).channel.is_init() && old(self).channel.bytes().len()
                < SCANCODE_QUEUE_CAPACITY && old(self).channel.slot() is Some && old(self).executor.ready_ids().len() >= TASK_QUEUE_CAPACITY) ==> (r == Err::<Publish, Fatal>(
                Fatal::ReadyQueueFull,
            ) && final(self).executor.ready_ids() == old(self).executor.ready_ids()),
    {
        add_scancode(&mut self.channel, &mut self.executor.task_queue, scancode)
    }

    /// The run loop: repeat the run-ready-tasks pass and the race-free
    /// idle check until the machine halts with an empty ready queue and no
    /// pending interrupt.  On real hardware this loop never returns (a
    /// halt merely waits for the next interrupt); the model returns once
    /// the machine reports idle.  By then every task whose identifier was
    /// queued at entry has been polled at least once or has completed.
    pub fn run(&mut self) -> (r: Result<(), Fatal>)
        requires
            old(self).wf(),
        ensures
            final(self).wf(),
            r is Ok ==> (final(self).halted && final(self).executor.ready_ids().len() == 0
                && final(self).pending@.len() == 0),
            tasks_descend(old(self).executor.tasks@, final(self).executor.tasks@),
            queued_polled(
                old(self).executor.ready_ids(),
                old(self).executor.tasks@,
                final(self).executor.tasks@,
            ),
            queued_immediate_gone(
                old(self).executor.ready_ids(),
                old(self).executor.tasks@,
                final(self).executor.tasks@,
                final(self).executor.waker_cache@,
            ),
            forall|id: u64|
                (#[trigger] old(self).executor.tasks@.contains_key(id) && old(self).executor.tasks@[id].computation is Keypresses) ==> final(self).executor.tasks@.contains_key(id),
            forall|id: u64| #[trigger]
                lone_consumer(old(self).executor.tasks@, id) ==> ({
                    let kb0 = old(self).executor.tasks@[id].computation->Keypresses_0.keyboard;
                    let kb1 = final(self).executor.tasks@[id].computation->Keypresses_0.keyboard;
                    &&& final(self).executor.tasks@.contains_key(id)
                    &&& decoded_keys(decoder_bytes(kb0)).is_prefix_of(
                        decoded_keys(decoder_bytes(kb1)),
                    )
                    &&& final(self).output@ == old(self).output@ + decoded_keys(
                        decoder_bytes(kb1),
                    ).skip(decoded_keys(decoder_bytes(kb0)).len() as int)
                }),
            old(self).output@.is_prefix_of(final(self).output@),
    {
        let ghost q0: Seq<u64> = self.executor.ready_ids();
        let ghost t0: Map<u64, Task> = self.executor.tasks@;
        proof {
            assert forall|id: u64| #[trigger] lone_consumer(t0, id) implies ({
                let keys0 = decoded_keys(
                    decoder_bytes(t0[id].computation->Keypresses_0.keyboard),
                );
                keys0.is_prefix_of(keys0) && self.output@ == old(self).output@ + keys0.skip(
                    keys0.len() as int,
                )
            }) by {
                let keys0 = decoded_keys(
                    decoder_bytes(t0[id].computation->Keypresses_0.keyboard),
                );
                assert(keys0 =~= keys0.subrange(0, keys0.len() as int));
                assert(keys0.skip(keys0.len() as int) =~= Seq::<Key>::empty());
                assert(old(self).output@ + keys0.skip(keys0.len() as int) =~= old(self).output@);
            }
        }
        loop
            invariant
                self.wf(),
                q0 == old(self).executor.ready_ids(),
                t0 == old(self).executor.tasks@,
                tasks_descend(t0, self.executor.tasks@),
                queued_polled(q0, t0, self.executor.tasks@) || *self == *old(self),
                queued_immediate_gone(
                    q0,
                    t0,
                    self.executor.tasks@,
                    self.executor.waker_cache@,
                ) || *self == *old(self),
                forall|id: u64|
                    (#[trigger] t0.contains_key(id) && t0[id].computation is Keypresses)
                        ==> self.executor.tasks@.contains_key(id),
                forall|id: u64| #[trigger]
                    lone_consumer(t0, id) ==> ({
                        let kb0 = t0[id].computation->Keypresses_0.keyboard;
                        let kbc = self.executor.tasks@[id].computation->Keypresses_0.keyboard;
                        &&& decoded_keys(decoder_bytes(kb0)).is_prefix_of(
                            decoded_keys(decoder_bytes(kbc)),
                        )
                        &&& self.output@ == old(self).output@ + decoded_keys(
                            decoder_bytes(kbc),
                        ).skip(decoded_keys(decoder_bytes(kb0)).len() as int)
                    }),
                self.output@.len() >= old(self).output@.len(),
                forall|i: int|
                    0 <= i < old(self).output@.len() ==> self.output@[i] == old(self).output@[i],
            decreases self.pending@.len(),
        {
            let ghost pre = *self;
            self.executor.run_ready_tasks(&mut self.channel, &mut self.output);
            proof {
                lemma_tasks_descend_trans(t0, pre.executor.tasks@, self.executor.tasks@);
                if queued_polled(q0, t0, pre.executor.tasks@) {
                    lemma_queued_polled_descend(
                        q0,
                        t0,
                        pre.executor.tasks@,
                        self.executor.tasks@,
                    );
                }
                lemma_pointwise_from_prefix(pre.output@, self.output@);
                assert forall|id: u64| #[trigger] lone_consumer(t0, id) implies ({
                    let kb0 = t0[id].computation->Keypresses_0.keyboard;
                    let kbc = self.executor.tasks@[id].computation->Keypresses_0.keyboard;
                    &&& decoded_keys(decoder_bytes(kb0)).is_prefix_of(
                        decoded_keys(decoder_bytes(kbc)),
                    )
                    &&& self.output@ == old(self).output@ + decoded_keys(
                        decoder_bytes(kbc),
                    ).skip(decoded_keys(decoder_bytes(kb0)).len() as int)
                }) by {
                    // loneliness carries to the pass's starting table
                    assert(lone_consumer(pre.executor.tasks@, id)) by {
                        assert(pre.executor.tasks@.contains_key(id));
                        assert forall|j: u64|
                            (#[trigger] pre.executor.tasks@.contains_key(j)
                                && pre.executor.tasks@[j].computation is Keypresses) implies j
                            == id by {
                            assert(t0.contains_key(j) && t0[j].computation is Keypresses);
                        }
                    }
                    let kb0 = t0[id].computation->Keypresses_0.keyboard;
                    let kb_mid = pre.executor.tasks@[id].computation->Keypresses_0.keyboard;
                    let kb_post = self.executor.tasks@[id].computation->Keypresses_0.keyboard;
                    let keys0 = decoded_keys(decoder_bytes(kb0));
                    let keys_mid = decoded_keys(decoder_bytes(kb_mid));
                    let keys_post = decoded_keys(decoder_bytes(kb_post));
                    lemma_key_prefix_chain(keys0, keys_mid, keys_post);
                    assert(old(self).output@ + (keys_mid.skip(keys0.len() as int)
                        + keys_post.skip(keys_mid.len() as int)) =~= (old(self).output@
                        + keys_mid.skip(keys0.len() as int)) + keys_post.skip(
                        keys_mid.len() as int,
                    ));
                }
            }
            match self.sleep_if_idle() {
                Err(fatal) => {
                    proof {
                        lemma_prefix_from_pointwise(old(self).output@, self.output@);
                    }
                    return Err(fatal);
                },
                Ok(()) => (),
            }
            if self.halted {
                proof {
                    lemma_prefix_from_pointwise(old(self).output@, self.output@);
                }
                return Ok(());
            }
        }
    }
}

} // verus!
