//! The cooperative executor: the task table, the bounded ready queue of
//! task identifiers, and the cache of per-task wake callbacks.

use vstd::prelude::*;

use crossbeam_queue::ArrayQueue;
use std::collections::BTreeMap;

use crate::queues::{task_queue_cap, task_queue_new, task_queue_pop, task_queue_push,
    task_queue_view};
use crate::task::keyboard::{decoded_keys, decoder_bytes, lemma_key_prefix_chain, Key,
    ScancodeChannel};
use crate::task::{Advance, Task, TaskId};
use crate::Fatal;

verus! {

broadcast use vstd::std_specs::btree::group_btree_axioms, vstd::laws_cmp::group_laws_cmp;

/// The capacity of the ready queue (the greatest number of queued wakeups,
/// and so also of live tasks spawned at once).
pub const TASK_QUEUE_CAPACITY: usize = 100;

/// The per-task wake callback: holds the task's identifier and, when
/// invoked, re-enqueues it on the executor's ready queue.  Safe to invoke
/// from interrupt context: it neither blocks nor allocates.
#[derive(Clone, Copy, Debug, PartialEq, Eq, Structural)]
pub struct TaskWaker {
    pub task_id: TaskId,
}

impl TaskWaker {
    pub fn new_waker(task_id: TaskId) -> (w: TaskWaker)
        ensures
            w.task_id == task_id,
    {
        TaskWaker { task_id }
    }

    /// Re-enqueues the owning task so that the next scheduling pass polls
    /// it again.  A full queue halts the system: losing the wakeup would
    /// corrupt scheduling unobservably.
    pub fn wake(&self, ready: &mut ArrayQueue<u64>) -> (r: Result<(), Fatal>)
        ensures
            task_queue_cap(*final(ready)) == task_queue_cap(*old(ready)),
            task_queue_view(*old(ready)).len() < task_queue_cap(*old(ready)) ==> (r == Ok::<
                (),
                Fatal,
            >(()) && task_queue_view(*final(ready)) == task_queue_view(*old(ready)).push(
                self.task_id.0,
            )),
            task_queue_view(*old(ready)).len() >= task_queue_cap(*old(ready)) ==> (r == Err::<
                (),
                Fatal,
            >(Fatal::ReadyQueueFull) && *final(ready) == *old(ready)),
    {
        match task_queue_push(ready, self.task_id.0) {
            Ok(()) => Ok(()),
            Err(_) => Err(Fatal::ReadyQueueFull),
        }
    }
}

/// Every task in `post` was already live in `pre`, under the same
/// identifier, with a poll count at least as large and the same kind of
/// computation: a scheduling pass never invents or rewinds tasks.
pub open spec fn tasks_descend(pre: Map<u64, Task>, post: Map<u64, Task>) -> bool {
    forall|id: u64| #[trigger]
        post.contains_key(id) ==> (pre.contains_key(id) && post[id].id == pre[id].id
            && post[id].polls@ >= pre[id].polls@ && ((post[id].computation is Keypresses) == (
        pre[id].computation is Keypresses)))
}

/// Every identifier queued in `q` whose task was live in `pre` has been
/// polled on the way to `post`: the task either completed and left the
/// table, or carries a strictly larger poll count.
pub open spec fn queued_polled(q: Seq<u64>, pre: Map<u64, Task>, post: Map<u64, Task>) -> bool {
    forall|i: int|
        (0 <= i < q.len() && pre.contains_key(#[trigger] q[i])) ==> (!post.contains_key(q[i])
            || post[q[i]].polls@ > pre[q[i]].polls@)
}

/// Every identifier queued in `q` whose task in `pre` completes on its
/// first poll is absent from `post`'s task table and waker cache.
pub open spec fn queued_immediate_gone(
    q: Seq<u64>,
    pre: Map<u64, Task>,
    post_tasks: Map<u64, Task>,
    post_cache: Map<u64, TaskWaker>,
) -> bool {
    forall|i: int|
        (0 <= i < q.len() && pre.contains_key(#[trigger] q[i])
            && pre[q[i]].computation is Immediate) ==> (!post_tasks.contains_key(q[i])
            && !post_cache.contains_key(q[i]))
}

/// Whether `id` is the one and only keypress consumer in the table.  In
/// the running system there is one event channel and so at most one
/// consumer; under that hypothesis the output sink can be attributed
/// exactly.
pub open spec fn lone_consumer(m: Map<u64, Task>, id: u64) -> bool {
    &&& m.contains_key(id)
    &&& m[id].computation is Keypresses
    &&& forall|j: u64| (#[trigger] m.contains_key(j) && m[j].computation is Keypresses) ==> j == id
}

/// Being already-live descends transitively.
pub proof fn lemma_tasks_descend_trans(a: Map<u64, Task>, b: Map<u64, Task>, c: Map<u64, Task>)
    requires
        tasks_descend(a, b),
        tasks_descend(b, c),
    ensures
        tasks_descend(a, c),
{
}

/// Once every queued task has been polled, further scheduling passes
/// (which never resurrect tasks nor rewind poll counts) keep it so.
pub proof fn lemma_queued_polled_descend(
    q: Seq<u64>,
    a: Map<u64, Task>,
    b: Map<u64, Task>,
    c: Map<u64, Task>,
)
    requires
        queued_polled(q, a, b),
        tasks_descend(b, c),
    ensures
        queued_polled(q, a, c),
{
}

/// The cooperative executor.  It exclusively owns the table of live tasks
/// (keyed by the raw task identifier), the bounded ready queue, and the
/// waker cache.
pub struct Executor {
    pub tasks: BTreeMap<u64, Task>,
    pub task_queue: ArrayQueue<u64>,
    pub waker_cache: BTreeMap<u64, TaskWaker>,
}

impl Executor {
    /// The identifiers currently in the ready queue, front first.
    pub open spec fn ready_ids(self) -> Seq<u64> {
        task_queue_view(self.task_queue)
    }

    /// Well-formedness: the ready queue has the configured capacity, every
    /// task sits under its own identifier, and the waker cache holds at
    /// most one callback per live task, each bound to its own identifier.
    pub open spec fn wf(self) -> bool {
        &&& task_queue_cap(self.task_queue) == TASK_QUEUE_CAPACITY
        &&& self.ready_ids().len() <= TASK_QUEUE_CAPACITY
        &&& forall|id: u64| #[trigger]
            self.tasks@.contains_key(id) ==> self.tasks@[id].id.0 == id
        &&& forall|id: u64| #[trigger]
            self.waker_cache@.contains_key(id) ==> self.tasks@.contains_key(id)
                && self.waker_cache@[id].task_id.0 == id
    }

    /// Whether some live task is the keypress consumer (and so may touch
    /// the event channel when polled).
    pub open spec fn has_consumer(self) -> bool {
        exists|id: u64| #[trigger]
            self.tasks@.contains_key(id) && self.tasks@[id].computation is Keypresses
    }

    pub fn new() -> (e: Executor)
        ensures
            e.wf(),
            e.tasks@ == Map::<u64, Task>::empty(),
            e.waker_cache@ == Map::<u64, TaskWaker>::empty(),
            e.ready_ids() == Seq::<u64>::empty(),
    {
        Executor {
            tasks: BTreeMap::new(),
            task_queue: task_queue_new(TASK_QUEUE_CAPACITY),
            waker_cache: BTreeMap::new(),
        }
    }

    /// Inserts the task into the task table and enqueues its identifier so
    /// it is polled at least once.  Fatal if a task with the same
    /// identifier is already live (a broken allocator invariant) or if the
    /// ready queue is full.
    pub fn spawn(&mut self, task: Task) -> (r: Result<(), Fatal>)
        requires
            old(self).wf(),
        ensures
            final(self).wf(),
            old(self).tasks@.contains_key(task.id.0) ==> (r == Err::<(), Fatal>(
                Fatal::DuplicateTaskId,
            ) && *final(self) == *old(self)),
            (!old(self).tasks@.contains_key(task.id.0) && old(self).ready_ids().len()
                >= TASK_QUEUE_CAPACITY) ==> (r == Err::<(), Fatal>(Fatal::ReadyQueueFull) && *final(self) == *old(self)),
            (!old(self).tasks@.contains_key(task.id.0) && old(self).ready_ids().len()
                < TASK_QUEUE_CAPACITY) ==> (r == Ok::<(), Fatal>(()) && final(self).tasks@ == old(self).tasks@.insert(task.id.0, task) && final(self).ready_ids() == old(self).ready_ids().push(task.id.0) && final(self).waker_cache@ == old(self).waker_cache@),
    {
        if self.tasks.contains_key(&task.id.0) {
            return Err(Fatal::DuplicateTaskId);
        }
        match task_queue_push(&mut self.task_queue, task.id.0) {
            Err(_) => Err(Fatal::ReadyQueueFull),
            Ok(()) => {
                self.tasks.insert(task.id.0, task);
                Ok(())
            },
        }
    }

    /// One run-ready-tasks pass: pop identifiers until the ready queue is
    /// empty.  A popped identifier with no live task is a stale wake and
    /// is silently skipped.  A live task is polled with its cached wake
    /// callback (created lazily on first poll); if it reports `Ready` it
    /// and its cached waker are removed, if `Pending` both stay in place.
    ///
    /// The contract carries the scheduling guarantees: afterwards the
    /// ready queue is empty; no task appears that was not live before;
    /// every task whose identifier was queued has been polled at least
    /// once (its poll count grew) or completed and left the table; and a
    /// task that completes on its first poll is gone from both the task
    /// table and the waker cache.  Duplicate queue entries are harmless:
    /// later encounters find the task absent and do nothing.
    pub fn run_ready_tasks(&mut self, chan: &mut ScancodeChannel, out: &mut Vec<Key>)
        requires
            old(self).wf(),
            old(chan).wf(),
            old(self).has_consumer() ==> old(chan).is_init(),
        ensures
            final(self).wf(),
            final(chan).wf(),
            final(chan).is_init() == old(chan).is_init(),
            final(self).ready_ids().len() == 0,
            final(self).has_consumer() ==> old(self).has_consumer(),
            tasks_descend(old(self).tasks@, final(self).tasks@),
            queued_polled(old(self).ready_ids(), old(self).tasks@, final(self).tasks@),
            queued_immediate_gone(
                old(self).ready_ids(),
                old(self).tasks@,
                final(self).tasks@,
                final(self).waker_cache@,
            ),
            forall|id: u64|
                (#[trigger] old(self).tasks@.contains_key(id) && !old(self).ready_ids().contains(
                    id,
                )) ==> (final(self).tasks@.contains_key(id) && final(self).tasks@[id] == old(self).tasks@[id]),
            forall|id: u64|
                (#[trigger] old(self).tasks@.contains_key(id) && old(self).tasks@[id].computation is Keypresses) ==> final(self).tasks@.contains_key(id),
            (exists|i: int|
                0 <= i < old(self).ready_ids().len() && old(self).tasks@.contains_key(
                    #[trigger] old(self).ready_ids()[i],
                ) && old(self).tasks@[old(self).ready_ids()[i]].computation is Keypresses) ==> (
            final(chan).bytes() == Seq::<u8>::empty() && final(chan).slot() is Some),
            !(exists|i: int|
                0 <= i < old(self).ready_ids().len() && old(self).tasks@.contains_key(
                    #[trigger] old(self).ready_ids()[i],
                ) && old(self).tasks@[old(self).ready_ids()[i]].computation is Keypresses) ==> (
            final(out)@ == old(out)@ && *final(chan) == *old(chan)),
            forall|id: u64|
                (#[trigger] old(self).waker_cache@.contains_key(id) && final(self).tasks@.contains_key(id)) ==> (final(self).waker_cache@.contains_key(id) && final(self).waker_cache@[id] == old(self).waker_cache@[id]),
            forall|i: int|
                (0 <= i < old(self).ready_ids().len() && old(self).tasks@.contains_key(
                    #[trigger] old(self).ready_ids()[i],
                ) && final(self).tasks@.contains_key(old(self).ready_ids()[i])) ==> final(self).waker_cache@.contains_key(old(self).ready_ids()[i]),
            forall|id: u64| #[trigger]
                lone_consumer(old(self).tasks@, id) ==> ({
                    let kb0 = old(self).tasks@[id].computation->Keypresses_0.keyboard;
                    let kb1 = final(self).tasks@[id].computation->Keypresses_0.keyboard;
                    &&& final(self).tasks@.contains_key(id)
                    &&& decoded_keys(decoder_bytes(kb0)).is_prefix_of(
                        decoded_keys(decoder_bytes(kb1)),
                    )
                    &&& final(out)@ == old(out)@ + decoded_keys(decoder_bytes(kb1)).skip(
                        decoded_keys(decoder_bytes(kb0)).len() as int,
                    )
                    &&& (old(self).ready_ids().contains(id) ==> decoder_bytes(kb1)
                        == decoder_bytes(kb0) + old(chan).bytes())
                }),
            old(out)@.is_prefix_of(final(out)@),
    {
        let ghost q0: Seq<u64> = self.ready_ids();
        let ghost t0: Map<u64, Task> = self.tasks@;
        let ghost mut k: int = 0;
        let ghost mut consumer_polled: bool = false;
        proof {
            assert forall|id: u64| #[trigger] lone_consumer(t0, id) implies ({
                let keys0 = decoded_keys(
                    decoder_bytes(t0[id].computation->Keypresses_0.keyboard),
                );
                keys0.is_prefix_of(keys0) && out@ == old(out)@ + keys0.skip(keys0.len() as int)
            }) by {
                let keys0 = decoded_keys(
                    decoder_bytes(t0[id].computation->Keypresses_0.keyboard),
                );
                assert(keys0 =~= keys0.subrange(0, keys0.len() as int));
                assert(keys0.skip(keys0.len() as int) =~= Seq::<Key>::empty());
                assert(old(out)@ + keys0.skip(keys0.len() as int) =~= old(out)@);
            }
        }
        loop
            invariant
                self.wf(),
                chan.wf(),
                chan.is_init() == old(chan).is_init(),
                old(self).has_consumer() ==> old(chan).is_init(),
                q0 == old(self).ready_ids(),
                t0 == old(self).tasks@,
                0 <= k <= q0.len(),
                self.ready_ids() =~= q0.subrange(k, q0.len() as int),
                forall|id: u64| #[trigger]
                    self.tasks@.contains_key(id) ==> (t0.contains_key(id) && self.tasks@[id].id
                        == t0[id].id && self.tasks@[id].polls@ >= t0[id].polls@ && ((
                    self.tasks@[id].computation is Keypresses) == (
                    t0[id].computation is Keypresses))),
                forall|id: u64| #[trigger]
                    self.waker_cache@.contains_key(id) ==> self.tasks@.contains_key(id)
                        && self.waker_cache@[id].task_id.0 == id,
                forall|i: int|
                    (0 <= i < k && t0.contains_key(#[trigger] q0[i])) ==> (
                    !self.tasks@.contains_key(q0[i]) || self.tasks@[q0[i]].polls@
                        > t0[q0[i]].polls@),
                forall|i: int|
                    (0 <= i < k && t0.contains_key(#[trigger] q0[i])
                        && t0[q0[i]].computation is Immediate) ==> (!self.tasks@.contains_key(q0[i])
                        && !self.waker_cache@.contains_key(q0[i])),
                forall|id: u64|
                    (#[trigger] t0.contains_key(id) && !q0.contains(id)) ==> (
                    self.tasks@.contains_key(id) && self.tasks@[id] == t0[id]),
                forall|id: u64|
                    (#[trigger] t0.contains_key(id) && t0[id].computation is Keypresses)
                        ==> self.tasks@.contains_key(id),
                consumer_polled ==> (chan.bytes() == Seq::<u8>::empty() && chan.slot() is Some),
                forall|i: int|
                    (0 <= i < k && t0.contains_key(#[trigger] q0[i])
                        && t0[q0[i]].computation is Keypresses) ==> consumer_polled,
                consumer_polled ==> (exists|i: int|
                    0 <= i < q0.len() && t0.contains_key(#[trigger] q0[i])
                        && t0[q0[i]].computation is Keypresses),
                !consumer_polled ==> (out@ == old(out)@ && *chan == *old(chan)),
                forall|id: u64|
                    (#[trigger] old(self).waker_cache@.contains_key(id)
                        && self.tasks@.contains_key(id)) ==> (self.waker_cache@.contains_key(id)
                        && self.waker_cache@[id] == old(self).waker_cache@[id]),
                forall|i: int|
                    (0 <= i < k && t0.contains_key(#[trigger] q0[i]) && self.tasks@.contains_key(
                        q0[i],
                    )) ==> self.waker_cache@.contains_key(q0[i]),
                forall|id: u64| #[trigger]
                    lone_consumer(t0, id) ==> ({
                        let kb0 = t0[id].computation->Keypresses_0.keyboard;
                        let kbc = self.tasks@[id].computation->Keypresses_0.keyboard;
                        &&& self.tasks@.contains_key(id)
                        &&& decoded_keys(decoder_bytes(kb0)).is_prefix_of(
                            decoded_keys(decoder_bytes(kbc)),
                        )
                        &&& out@ == old(out)@ + decoded_keys(decoder_bytes(kbc)).skip(
                            decoded_keys(decoder_bytes(kb0)).len() as int,
                        )
                        &&& (consumer_polled ==> decoder_bytes(kbc) == decoder_bytes(kb0) + old(chan).bytes())
                        &&& (!consumer_polled ==> self.tasks@[id] == t0[id])
                    }),
                out@.len() >= old(out)@.len(),
                forall|i: int| 0 <= i < old(out)@.len() ==> out@[i] == old(out)@[i],
            ensures
                self.ready_ids().len() == 0,
            decreases self.ready_ids().len(),
        {
            match task_queue_pop(&mut self.task_queue) {
                None => {
                    break ;
                },
                Some(task_id) => {
                    proof {
                        assert(q0.subrange(k, q0.len() as int)[0] == q0[k]);
                        assert(task_id == q0[k]);
                        assert(q0.contains(task_id));
                        assert(self.ready_ids() =~= q0.subrange(k + 1, q0.len() as int));
                    }
                    let ghost polled_before = consumer_polled;
                    match self.tasks.remove(&task_id) {
                        None => {
                            // stale wake for a task no longer live: a no-op
                        },
                        Some(mut task) => {
                            // fetch the cached wake callback, creating it
                            // lazily on the task's first poll
                            let waker = match self.waker_cache.get(&task_id) {
                                Some(cached) => *cached,
                                None => {
                                    let created = TaskWaker::new_waker(TaskId(task_id));
                                    self.waker_cache.insert(task_id, created);
                                    created
                                },
                            };
                            let ghost was_consumer = task.computation is Keypresses;
                            let ghost task_pre = task;
                            let ghost chan_pre = *chan;
                            let ghost out_pre = out@;
                            proof {
                                if task.computation is Keypresses {
                                    assert(old(self).tasks@.contains_key(task_id) && old(self).tasks@[task_id].computation is Keypresses);
                                    assert(old(self).has_consumer());
                                }
                            }
                            let advanced = task.poll(waker, chan, out);
                            let ghost task_post = task;
                            match advanced {
                                Advance::Ready => {
                                    // task done: remove it and its cached waker
                                    self.waker_cache.remove(&task_id);
                                },
                                Advance::Pending => {
                                    self.tasks.insert(task_id, task);
                                },
                            }
                            proof {
                                if was_consumer {
                                    consumer_polled = true;
                                }
                                assert forall|id: u64| #[trigger] lone_consumer(t0, id) implies ({
                                    let kb0 = t0[id].computation->Keypresses_0.keyboard;
                                    let kbc = self.tasks@[id].computation->Keypresses_0.keyboard;
                                    &&& self.tasks@.contains_key(id)
                                    &&& decoded_keys(decoder_bytes(kb0)).is_prefix_of(
                                        decoded_keys(decoder_bytes(kbc)),
                                    )
                                    &&& out@ == old(out)@ + decoded_keys(
                                        decoder_bytes(kbc),
                                    ).skip(decoded_keys(decoder_bytes(kb0)).len() as int)
                                    &&& (consumer_polled ==> decoder_bytes(kbc) == decoder_bytes(
                                        kb0,
                                    ) + old(chan).bytes())
                                    &&& (!consumer_polled ==> self.tasks@[id] == t0[id])
                                }) by {
                                    let kb0 = t0[id].computation->Keypresses_0.keyboard;
                                    let keys0 = decoded_keys(decoder_bytes(kb0));
                                    if was_consumer {
                                        // the polled task is a consumer, so
                                        // under loneliness it is `id` itself
                                        assert(t0.contains_key(task_id)
                                            && t0[task_id].computation is Keypresses);
                                        assert(task_id == id);
                                        assert(advanced == Advance::Pending);
                                        assert(self.tasks@[id] == task_post);
                                        let kb_pre = task_pre.computation->Keypresses_0.keyboard;
                                        let kb_post = task_post.computation->Keypresses_0.keyboard;
                                        let keys_pre = decoded_keys(decoder_bytes(kb_pre));
                                        let keys_post = decoded_keys(decoder_bytes(kb_post));
                                        lemma_key_prefix_chain(keys0, keys_pre, keys_post);
                                        assert(old(out)@ + (keys_pre.skip(keys0.len() as int)
                                            + keys_post.skip(keys_pre.len() as int)) =~= (old(out)@ + keys_pre.skip(keys0.len() as int)) + keys_post.skip(
                                            keys_pre.len() as int,
                                        ));
                                        if polled_before {
                                            assert(chan_pre.bytes() =~= Seq::<u8>::empty());
                                            assert(decoder_bytes(kb_pre) + chan_pre.bytes()
                                                =~= decoder_bytes(kb_pre));
                                        } else {
                                            assert(task_pre == t0[id]);
                                        }
                                    } else {
                                        // some other task was polled; the
                                        // consumer's entry is untouched
                                        assert(t0.contains_key(task_id));
                                        assert(!(t0[task_id].computation is Keypresses));
                                        assert(task_id != id);
                                    }
                                }
                            }
                        },
                    }
                    proof {
                        k = k + 1;
                    }
                },
            }
        }
        proof {
            assert(q0.subrange(k, q0.len() as int).len() == 0);
            assert(k == q0.len());
            assert(old(out)@ =~= out@.subrange(0, old(out)@.len() as int));
            assert forall|id: u64| #[trigger]
                lone_consumer(t0, id) && q0.contains(id) implies consumer_polled by {
                let i = choose|i: int| 0 <= i < q0.len() && q0[i] == id;
                assert(t0.contains_key(q0[i]) && t0[q0[i]].computation is Keypresses);
            };
            if self.has_consumer() {
                let id = choose|id: u64| #[trigger]
                    self.tasks@.contains_key(id) && self.tasks@[id].computation is Keypresses;
                assert(old(self).tasks@.contains_key(id) && old(self).tasks@[id].computation is Keypresses);
            }
        }
    }
}

impl Default for Executor {
    /// The same empty executor as `new` builds.
    fn default() -> (e: Executor)
        ensures
            e.wf(),
            e.tasks@ == Map::<u64, Task>::empty(),
            e.waker_cache@ == Map::<u64, TaskWaker>::empty(),
            e.ready_ids() == Seq::<u64>::empty(),
    {
        Executor::new()
    }
}

} // verus!
