//! Trusted interface to the bounded lock-free FIFO queues of
//! `crossbeam_queue`.  The executor's ready queue holds task identifiers
//! (`u64`), the event channel holds raw scancodes (`u8`); both are
//! `ArrayQueue`s, owned exclusively by the scheduler state, so every
//! wrapper below takes the queue by `&mut` and describes the contents
//! exactly.

use vstd::prelude::*;

use crossbeam_queue::ArrayQueue;

verus! {

#[verifier::external_type_specification]
#[verifier::external_body]
#[verifier::reject_recursive_types(T)]
pub struct ExArrayQueue<T>(ArrayQueue<T>);

/// The elements held by a ready queue, front (next to pop) first.
pub uninterp spec fn task_queue_view(q: ArrayQueue<u64>) -> Seq<u64>;

/// The capacity a ready queue was created with.
pub uninterp spec fn task_queue_cap(q: ArrayQueue<u64>) -> nat;

/// The elements held by a scancode queue, front (next to pop) first.
pub uninterp spec fn byte_queue_view(q: ArrayQueue<u8>) -> Seq<u8>;

/// The capacity a scancode queue was created with.
pub uninterp spec fn byte_queue_cap(q: ArrayQueue<u8>) -> nat;

/// Relies on `crossbeam_queue::ArrayQueue::new`: builds an empty queue
/// with exactly the requested capacity (panics on zero or absurdly large
/// capacities, which the precondition rules out).
#[verifier::external_body]
pub fn task_queue_new(cap: usize) -> (q: ArrayQueue<u64>)
    requires
        1 <= cap <= 0x1000_0000,
    ensures
        task_queue_view(q) == Seq::<u64>::empty(),
        task_queue_cap(q) == cap,
{
    ArrayQueue::new(cap)
}

/// Relies on `crossbeam_queue::ArrayQueue::push`: appends at the tail,
/// or hands the value back unchanged when the queue is full.
#[verifier::external_body]
pub fn task_queue_push(q: &mut ArrayQueue<u64>, v: u64) -> (r: Result<(), u64>)
    ensures
        task_queue_cap(*final(q)) == task_queue_cap(*old(q)),
        task_queue_view(*old(q)).len() < task_queue_cap(*old(q)) ==> (r == Ok::<(), u64>(())
            && task_queue_view(*final(q)) == task_queue_view(*old(q)).push(v)),
        task_queue_view(*old(q)).len() >= task_queue_cap(*old(q)) ==> (r == Err::<(), u64>(v)
            && *final(q) == *old(q)),
{
    q.push(v)
}

/// Relies on `crossbeam_queue::ArrayQueue::pop`: removes and returns the
/// front element, or `None` when the queue is empty.
#[verifier::external_body]
pub fn task_queue_pop(q: &mut ArrayQueue<u64>) -> (r: Option<u64>)
    ensures
        task_queue_cap(*final(q)) == task_queue_cap(*old(q)),
        task_queue_view(*old(q)).len() == 0 ==> (r == None::<u64> && *final(q) == *old(q)),
        task_queue_view(*old(q)).len() > 0 ==> (r == Some(task_queue_view(*old(q))[0])
            && task_queue_view(*final(q)) == task_queue_view(*old(q)).subrange(
            1,
            task_queue_view(*old(q)).len() as int,
        )),
{
    q.pop()
}

/// Relies on `crossbeam_queue::ArrayQueue::is_empty`.
#[verifier::external_body]
pub fn task_queue_is_empty(q: &ArrayQueue<u64>) -> (r: bool)
    ensures
        r == (task_queue_view(*q).len() == 0),
{
    q.is_empty()
}


/// Relies on `crossbeam_queue::ArrayQueue::new`: builds an empty queue
/// with exactly the requested capacity (panics on zero or absurdly large
/// capacities, which the precondition rules out).
#[verifier::external_body]
pub fn byte_queue_new(cap: usize) -> (q: ArrayQueue<u8>)
    requires
        1 <= cap <= 0x1000_0000,
    ensures
        byte_queue_view(q) == Seq::<u8>::empty(),
        byte_queue_cap(q) == cap,
{
    ArrayQueue::new(cap)
}

/// Relies on `crossbeam_queue::ArrayQueue::push`: appends at the tail,
/// or hands the value back unchanged when the queue is full.
#[verifier::external_body]
pub fn byte_queue_push(q: &mut ArrayQueue<u8>, v: u8) -> (r: Result<(), u8>)
    ensures
        byte_queue_cap(*final(q)) == byte_queue_cap(*old(q)),
        byte_queue_view(*old(q)).len() < byte_queue_cap(*old(q)) ==> (r == Ok::<(), u8>(())
            && byte_queue_view(*final(q)) == byte_queue_view(*old(q)).push(v)),
        byte_queue_view(*old(q)).len() >= byte_queue_cap(*old(q)) ==> (r == Err::<(), u8>(v)
            && *final(q) == *old(q)),
{
    q.push(v)
}

/// Relies on `crossbeam_queue::ArrayQueue::pop`: removes and returns the
/// front element, or `None` when the queue is empty.
#[verifier::external_body]
pub fn byte_queue_pop(q: &mut ArrayQueue<u8>) -> (r: Option<u8>)
    ensures
        byte_queue_cap(*final(q)) == byte_queue_cap(*old(q)),
        byte_queue_view(*old(q)).len() == 0 ==> (r == None::<u8> && *final(q) == *old(q)),
        byte_queue_view(*old(q)).len() > 0 ==> (r == Some(byte_queue_view(*old(q))[0])
            && byte_queue_view(*final(q)) == byte_queue_view(*old(q)).subrange(
            1,
            byte_queue_view(*old(q)).len() as int,
        )),
{
    q.pop()
}


} // verus!
