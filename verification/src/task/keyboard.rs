//! The interrupt-to-task event channel and the keypress consumer.
//!
//! A hardware interrupt handler publishes raw scancodes into a bounded
//! lock-free queue and wakes the single registered waker; the consumer
//! task drains the queue, decodes scancodes into keys, and appends them to
//! the output sink.  The channel is a process-wide singleton guarded by an
//! explicit initialized-once flag.

use vstd::prelude::*;

use crossbeam_queue::ArrayQueue;
use pc_keyboard::layouts::Us104Key;
use pc_keyboard::{HandleControl, Keyboard, ScancodeSet1};

use crate::queues::{byte_queue_cap, byte_queue_new, byte_queue_pop, byte_queue_push,
    byte_queue_view, task_queue_cap, task_queue_view};
use crate::task::executor::TaskWaker;
use crate::task::{Advance, Computation};
use crate::Fatal;

verus! {

/// The capacity of the scancode queue.  Should be raised if typing ever
/// overruns the channel, since overrun is fatal by design.
pub const SCANCODE_QUEUE_CAPACITY: usize = 100;

/// The stateful scancode decoder of `pc_keyboard`, held opaquely: the
/// verifier cannot declare the generic `Keyboard` type (its trait bounds
/// are external), so the decoder lives in a hidden field and is reached
/// only through the trusted wrappers below.
#[verifier::external_body]
pub struct Decoder {
    inner: Keyboard<Us104Key, ScancodeSet1>,
}

/// A decoded key, as handed to the output driver: either a printable
/// unicode character or the textual name of a raw key.
#[derive(Debug)]
pub enum Key {
    Unicode(char),
    Raw(String),
}

/// The scancodes a decoder has consumed since its construction, oldest
/// first.  The decoder's whole state is a function of this history, since
/// `decode_byte` is its only mutator.
pub uninterp spec fn decoder_bytes(kb: Decoder) -> Seq<u8>;

/// The keys the scancode-set-1 / US-104 decoder yields for a scancode
/// string fed byte by byte into a fresh decoder, in input order: unicode
/// keys as their character, raw keys under their debug name, bytes that
/// complete no key yielding nothing.  What this sequence is on given
/// bytes only the decoder itself determines; `decode_byte` relates each
/// call's result to it.
pub uninterp spec fn decoded_keys(bytes: Seq<u8>) -> Seq<Key>;

/// Key histories that grow by appending compose: skipping past the
/// oldest prefix decomposes at any intermediate one.
pub proof fn lemma_key_prefix_chain(a: Seq<Key>, b: Seq<Key>, c: Seq<Key>)
    requires
        a.is_prefix_of(b),
        b.is_prefix_of(c),
    ensures
        a.is_prefix_of(c),
        c.skip(a.len() as int) == b.skip(a.len() as int) + c.skip(b.len() as int),
{
    assert forall|i: int| 0 <= i < a.len() implies a[i] == c[i] by {
        assert(a[i] == b.subrange(0, a.len() as int)[i]);
        assert(b[i] == c.subrange(0, b.len() as int)[i]);
    }
    assert(a =~= c.subrange(0, a.len() as int));
    assert forall|i: int| 0 <= i < b.len() implies b[i] == c[i] by {
        assert(b[i] == c.subrange(0, b.len() as int)[i]);
    }
    assert(c.skip(a.len() as int) =~= b.skip(a.len() as int) + c.skip(b.len() as int));
}

/// Relies on `pc_keyboard::Keyboard::new` (with `ScancodeSet1::new` and
/// the US-104 layout): a fresh scancode decoder that ignores ctrl
/// mapping and has consumed nothing.
#[verifier::external_body]
pub fn keyboard_new() -> (kb: Decoder)
    ensures
        decoder_bytes(kb) == Seq::<u8>::empty(),
{
    Decoder { inner: Keyboard::new(ScancodeSet1::new(), Us104Key, HandleControl::Ignore) }
}

/// Relies on `pc_keyboard::Keyboard::add_byte` and
/// `Keyboard::process_keyevent`, in the fixed order the consumer uses
/// them: the byte advances the scancode-set state machine, and a
/// completed key event is handed on to the layout and modifier state at
/// once.  Both are deterministic state machines over the decoder state
/// and their argument, so the result is a function of the byte history
/// alone; decode errors are ignored, as the consumer ignores them.  The
/// two calls stay in one wrapper because the intermediate `KeyEvent` is
/// opaque and could not be named between two.
#[verifier::external_body]
pub fn decode_byte(kb: &mut Decoder, scancode: u8) -> (key: Option<Key>)
    ensures
        decoder_bytes(*final(kb)) == decoder_bytes(*old(kb)).push(scancode),
        (match key {
            Some(k) => decoded_keys(decoder_bytes(*old(kb)).push(scancode)) == decoded_keys(
                decoder_bytes(*old(kb)),
            ).push(k),
            None => decoded_keys(decoder_bytes(*old(kb)).push(scancode)) == decoded_keys(
                decoder_bytes(*old(kb)),
            ),
        }),
{
    let ev = kb.inner.add_byte(scancode).ok().flatten();
    match ev {
        None => None,
        Some(ev) => match kb.inner.process_keyevent(ev) {
            Some(pc_keyboard::DecodedKey::Unicode(c)) => Some(Key::Unicode(c)),
            Some(pc_keyboard::DecodedKey::RawKey(k)) => Some(Key::Raw(format!("{:?}", k))),
            None => None,
        },
    }
}

/// The event channel: a bounded scancode queue, a single-slot wake
/// register (last registered waker wins), and the initialized-once flag
/// that guards the singleton lifecycle.
pub struct ScancodeChannel {
    pub initialized: bool,
    pub queue: ArrayQueue<u8>,
    pub waker: Option<TaskWaker>,
}

impl ScancodeChannel {
    /// Whether the consumer has initialized the channel singleton.
    pub open spec fn is_init(self) -> bool {
        self.initialized
    }

    /// The scancodes currently queued, front (next to pop) first.
    pub open spec fn bytes(self) -> Seq<u8> {
        byte_queue_view(self.queue)
    }

    /// The waker currently held by the single-slot wake register.
    pub open spec fn slot(self) -> Option<TaskWaker> {
        self.waker
    }

    pub open spec fn wf(self) -> bool {
        &&& byte_queue_cap(self.queue) == SCANCODE_QUEUE_CAPACITY
        &&& self.bytes().len() <= SCANCODE_QUEUE_CAPACITY
        &&& !self.is_init() ==> self.bytes().len() == 0
    }

    /// The channel as the process starts: present but not yet initialized;
    /// a producer that observes this state drops its event.
    pub fn new() -> (chan: ScancodeChannel)
        ensures
            chan.wf(),
            !chan.is_init(),
            chan.slot() is None,
            chan.bytes() == Seq::<u8>::empty(),
    {
        ScancodeChannel {
            initialized: false,
            queue: byte_queue_new(SCANCODE_QUEUE_CAPACITY),
            waker: None,
        }
    }
}

/// The outcome of publishing one scancode from interrupt context.
#[derive(Clone, Copy, Debug, PartialEq, Eq, Structural)]
pub enum Publish {
    /// The scancode was queued; no waker was registered.
    Enqueued,
    /// The scancode was queued and the registered waker was invoked.
    EnqueuedAndWoken,
    /// The channel is not initialized yet; the scancode was dropped (a
    /// tolerated startup race, logged rather than fatal).
    DroppedUninitialized,
}

/// Called by the keyboard interrupt handler: publish one scancode.
///
/// Never blocks or allocates.  If the channel is uninitialized the event
/// is dropped; if the scancode queue is full that is fatal; after a
/// successful push the registered waker (if any) is taken from the slot
/// and invoked, which enqueues its task identifier on the ready queue —
/// fatal if the ready queue is full.
pub fn add_scancode(chan: &mut ScancodeChannel, ready: &mut ArrayQueue<u64>, scancode: u8) -> (r:
    Result<Publish, Fatal>)
    requires
        old(chan).wf(),
    ensures
        final(chan).wf(),
        final(chan).is_init() == old(chan).is_init(),
        task_queue_cap(*final(ready)) == task_queue_cap(*old(ready)),
        !old(chan).is_init() ==> (r == Ok::<Publish, Fatal>(Publish::DroppedUninitialized)
            && *final(chan) == *old(chan) && *final(ready) == *old(ready)),
        (old(chan).is_init() && old(chan).bytes().len() >= SCANCODE_QUEUE_CAPACITY) ==> (r
            == Err::<Publish, Fatal>(Fatal::ScancodeQueueFull) && *final(chan) == *old(chan)
            && *final(ready) == *old(ready)),
        (old(chan).is_init() && old(chan).bytes().len() < SCANCODE_QUEUE_CAPACITY) ==> final(chan).bytes() == old(chan).bytes().push(scancode),
        (old(chan).is_init() && old(chan).bytes().len() < SCANCODE_QUEUE_CAPACITY && old(chan).slot() is None) ==> (r == Ok::<Publish, Fatal>(Publish::Enqueued) && final(chan).slot() is None && *final(ready) == *old(ready)),
        (old(chan).is_init() && old(chan).bytes().len() < SCANCODE_QUEUE_CAPACITY && old(chan).slot() is Some && task_queue_view(*old(ready)).len() < task_queue_cap(*old(ready)))
            ==> (r == Ok::<Publish, Fatal>(Publish::EnqueuedAndWoken) && final(chan).slot() is None && task_queue_view(*final(ready)) == task_queue_view(*old(ready)).push(
            old(chan).slot()->0.task_id.0,
        )),
        (old(chan).is_init() && old(chan).bytes().len() < SCANCODE_QUEUE_CAPACITY && old(chan).slot() is Some && task_queue_view(*old(ready)).len() >= task_queue_cap(*old(ready)))
            ==> (r == Err::<Publish, Fatal>(Fatal::ReadyQueueFull) && final(chan).slot() is None
            && *final(ready) == *old(ready)),
{
    if !chan.initialized {
        return Ok(Publish::DroppedUninitialized);
    }
    match byte_queue_push(&mut chan.queue, scancode) {
        Err(_) => Err(Fatal::ScancodeQueueFull),
        Ok(()) => {
            // Wake the registered waker, if any: last registered wins, and
            // invoking it takes it out of the slot.
            let registered = chan.waker;
            chan.waker = None;
            match registered {
                None => Ok(Publish::Enqueued),
                Some(waker) => match waker.wake(ready) {
                    Ok(()) => Ok(Publish::EnqueuedAndWoken),
                    Err(fatal) => Err(fatal),
                },
            }
        },
    }
}

/// A pull-driven sequence of scancodes.  Constructing it is the one legal
/// initializer of the channel singleton; the private field keeps callers
/// from building the stream without going through `new`.
pub struct ScancodeStream {
    _private: (),
}

impl ScancodeStream {
    /// Initializes the channel singleton.  A second construction attempt
    /// is fatal: the channel must be created exactly once.
    pub fn new(chan: &mut ScancodeChannel) -> (r: Result<ScancodeStream, Fatal>)
        requires
            old(chan).wf(),
        ensures
            final(chan).wf(),
            old(chan).is_init() ==> (r is Err && r->Err_0 == Fatal::ChannelAlreadyInitialized
                && *final(chan) == *old(chan)),
            !old(chan).is_init() ==> (r is Ok && final(chan).is_init() && final(chan).bytes()
                == Seq::<u8>::empty() && final(chan).slot() == old(chan).slot()),
    {
        if chan.initialized {
            return Err(Fatal::ChannelAlreadyInitialized);
        }
        chan.initialized = true;
        Ok(ScancodeStream { _private: () })
    }

    /// Two-phase poll.  First try an immediate pop; if the queue is empty,
    /// register the waker in the wake register and pop again (closing the
    /// race in which an event arrives between the first check and the
    /// registration), clearing the registration if an item appeared.
    /// `None` means the caller should suspend: the next wake comes from
    /// the interrupt-side `add_scancode`.
    pub fn poll_next(&mut self, chan: &mut ScancodeChannel, waker: TaskWaker) -> (r: Option<u8>)
        requires
            old(chan).wf(),
            old(chan).is_init(),
        ensures
            final(chan).wf(),
            final(chan).is_init(),
            old(chan).bytes().len() > 0 ==> (r == Some(old(chan).bytes()[0]) && final(chan).bytes() == old(chan).bytes().subrange(1, old(chan).bytes().len() as int) && final(chan).slot() == old(chan).slot()),
            old(chan).bytes().len() == 0 ==> (r == None::<u8> && final(chan).bytes() == old(chan).bytes() && final(chan).slot() == Some(waker)),
    {
        match byte_queue_pop(&mut chan.queue) {
            Some(scancode) => Some(scancode),
            None => {
                chan.waker = Some(waker);
                match byte_queue_pop(&mut chan.queue) {
                    Some(scancode) => {
                        chan.waker = None;
                        Some(scancode)
                    },
                    None => None,
                }
            },
        }
    }
}

/// The state owned by the keypress consumer task: the stream handle to the
/// channel singleton and the stateful scancode decoder.
pub struct Keypresses {
    pub stream: ScancodeStream,
    pub keyboard: Decoder,
}

impl Keypresses {
    /// One poll of the consumer: drain the channel, feeding each scancode
    /// to the decoder in FIFO order and appending every decoded key to the
    /// output sink; then register the waker and suspend.  The consumer
    /// never completes.
    pub fn advance(&mut self, waker: TaskWaker, chan: &mut ScancodeChannel, out: &mut Vec<
        Key,
    >) -> (r: Advance)
        requires
            old(chan).wf(),
            old(chan).is_init(),
        ensures
            final(chan).wf(),
            final(chan).is_init(),
            r == Advance::Pending,
            final(chan).bytes() == Seq::<u8>::empty(),
            final(chan).slot() == Some(waker),
            decoder_bytes(final(self).keyboard) == decoder_bytes(old(self).keyboard) + old(
                chan,
            ).bytes(),
            decoded_keys(decoder_bytes(old(self).keyboard)).is_prefix_of(
                decoded_keys(decoder_bytes(final(self).keyboard)),
            ),
            final(out)@ == old(out)@ + decoded_keys(decoder_bytes(final(self).keyboard)).skip(
                decoded_keys(decoder_bytes(old(self).keyboard)).len() as int,
            ),
            old(out)@.is_prefix_of(final(out)@),
            final(out)@.len() <= old(out)@.len() + old(chan).bytes().len(),
    {
        let ghost history0: Seq<u8> = decoder_bytes(self.keyboard);
        let ghost keys0: Seq<Key> = decoded_keys(history0);
        loop
            invariant
                chan.wf(),
                chan.is_init(),
                history0 == decoder_bytes(old(self).keyboard),
                keys0 == decoded_keys(history0),
                decoder_bytes(self.keyboard) + chan.bytes() == history0 + old(chan).bytes(),
                keys0.is_prefix_of(decoded_keys(decoder_bytes(self.keyboard))),
                out@ == old(out)@ + decoded_keys(decoder_bytes(self.keyboard)).skip(
                    keys0.len() as int,
                ),
                out@.len() + chan.bytes().len() <= old(out)@.len() + old(chan).bytes().len(),
            decreases chan.bytes().len(),
        {
            match self.stream.poll_next(chan, waker) {
                Some(scancode) => {
                    let ghost history_pre: Seq<u8> = decoder_bytes(self.keyboard);
                    let ghost keys_pre: Seq<Key> = decoded_keys(history_pre);
                    let decoded = decode_byte(&mut self.keyboard, scancode);
                    proof {
                        // feeding the popped front byte keeps the history
                        // aligned with the drained channel
                        assert(decoder_bytes(self.keyboard) + chan.bytes() =~= history0 + old(
                            chan,
                        ).bytes());
                        let keys_post = decoded_keys(decoder_bytes(self.keyboard));
                        if decoded is Some {
                            let key = decoded->0;
                            assert(keys_post =~= keys_pre.push(key));
                            assert(keys_post.skip(keys0.len() as int) =~= keys_pre.skip(
                                keys0.len() as int,
                            ).push(key));
                            assert(old(out)@ + keys_post.skip(keys0.len() as int) =~= (old(out)@
                                + keys_pre.skip(keys0.len() as int)).push(key));
                        } else {
                            assert(keys_post =~= keys_pre);
                        }
                        assert(keys0.is_prefix_of(keys_post)) by {
                            assert(keys0 =~= keys_post.subrange(0, keys0.len() as int));
                        }
                    }
                    match decoded {
                        Some(key) => out.push(key),
                        None => (),
                    }
                },
                None => {
                    proof {
                        assert(decoder_bytes(self.keyboard) =~= decoder_bytes(self.keyboard)
                            + chan.bytes());
                        assert(old(out)@ =~= out@.subrange(0, old(out)@.len() as int));
                    }
                    return Advance::Pending;
                },
            }
        }
    }
}

/// Builds the keypress-consumer computation: constructs the scancode
/// stream (initializing the channel singleton — a second construction is
/// fatal) and a fresh decoder.
pub fn print_keypresses(chan: &mut ScancodeChannel) -> (r: Result<Computation, Fatal>)
    requires
        old(chan).wf(),
    ensures
        final(chan).wf(),
        old(chan).is_init() ==> (r is Err && r->Err_0 == Fatal::ChannelAlreadyInitialized && *final(chan) == *old(chan)),
        !old(chan).is_init() ==> (r is Ok && r->Ok_0 is Keypresses && decoder_bytes(
            r->Ok_0->Keypresses_0.keyboard,
        ) == Seq::<u8>::empty() && final(chan).is_init() && final(chan).bytes() == Seq::<
            u8,
        >::empty() && final(chan).slot() == old(chan).slot()),
{
    match ScancodeStream::new(chan) {
        Err(fatal) => Err(fatal),
        Ok(stream) => Ok(Computation::Keypresses(Keypresses { stream, keyboard: keyboard_new() })),
    }
}

} // verus!
