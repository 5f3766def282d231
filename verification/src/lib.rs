//! A cooperative, interrupt-driven task scheduler for a single-core kernel.
//!
//! The crate provides a cooperative executor that drives heap-owned
//! suspendable computations, a per-task wake mechanism feeding a bounded
//! ready queue, and a lock-free event channel that carries keyboard
//! scancodes from interrupt context into the cooperative scheduling domain.

pub mod machine;
pub mod queues;
pub mod serial;
pub mod task;
pub mod vga_buffer;

use vstd::prelude::*;

verus! {

/// The fatal conditions of the kernel.  Capacity exhaustion and broken
/// init-once invariants halt the system rather than silently dropping
/// scheduling or input events; callers treat every variant as unrecoverable.
#[derive(Clone, Copy, Debug, PartialEq, Eq, Structural)]
pub enum Fatal {
    /// A task identifier was pushed onto a full ready queue.
    ReadyQueueFull,
    /// A scancode was pushed onto a full event channel.
    ScancodeQueueFull,
    /// A spawned task carried an identifier already present in the task table.
    DuplicateTaskId,
    /// The event channel singleton was initialized a second time.
    ChannelAlreadyInitialized,
}

} // verus!
