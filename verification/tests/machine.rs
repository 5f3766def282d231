use swag_kernel::machine::Machine;
use swag_kernel::queues::task_queue_is_empty;
use swag_kernel::task::keyboard::{print_keypresses, Key, Publish};
use swag_kernel::task::Computation;

fn machine_with_consumer() -> Machine {
    let mut machine = Machine::new();
    let consumer = print_keypresses(&mut machine.channel).unwrap();
    machine.spawn(consumer).unwrap();
    machine
}

#[test]
fn end_to_end_scancode_becomes_one_character() {
    let mut machine = machine_with_consumer();
    // the press of the key that scancode set 1 numbers 0x1E
    machine.interrupt(0x1E).unwrap();
    machine.run().unwrap();
    assert!(machine.halted);
    assert_eq!(machine.output.len(), 1);
    assert!(matches!(machine.output[0], Key::Unicode('a')));
}

#[test]
fn publish_wake_poll_round_trip_is_fifo() {
    let mut machine = machine_with_consumer();
    // first run: the consumer is polled once, finds nothing, registers
    // its waker and suspends
    machine.run().unwrap();
    assert!(machine.output.is_empty());
    // two presses while the consumer is suspended: the first publish
    // wakes it, the second coalesces into the same pass
    assert_eq!(machine.interrupt(0x1E).unwrap(), Publish::EnqueuedAndWoken);
    assert_eq!(machine.interrupt(0x30).unwrap(), Publish::Enqueued);
    machine.run().unwrap();
    assert_eq!(machine.output.len(), 2);
    assert!(matches!(machine.output[0], Key::Unicode('a')));
    assert!(matches!(machine.output[1], Key::Unicode('b')));
}

#[test]
fn interrupt_at_the_idle_boundary_is_not_lost() {
    let mut machine = machine_with_consumer();
    machine.run().unwrap();
    // the interrupt fires exactly in the disable -> check -> enable-and-
    // halt window: it is pending when the idle check runs
    machine.pending.push(0x1E);
    machine.sleep_if_idle().unwrap();
    // the halt-and-enable step is indivisible, so the machine did not
    // stay halted: the handler ran and woke the consumer
    assert!(!machine.halted);
    assert!(!task_queue_is_empty(&machine.executor.task_queue));
    machine.run().unwrap();
    assert_eq!(machine.output.len(), 1);
    assert!(matches!(machine.output[0], Key::Unicode('a')));
}

#[test]
fn machine_runs_pending_interrupts_to_completion() {
    let mut machine = machine_with_consumer();
    machine.pending.push(0x1E);
    machine.pending.push(0x30);
    machine.run().unwrap();
    assert!(machine.halted);
    assert!(machine.pending.is_empty());
    assert_eq!(machine.output.len(), 2);
    assert!(matches!(machine.output[0], Key::Unicode('a')));
    assert!(matches!(machine.output[1], Key::Unicode('b')));
}

#[test]
fn interrupt_ends_a_halt() {
    let mut machine = Machine::new();
    machine.run().unwrap();
    assert!(machine.halted);
    machine.interrupt(0x1E).unwrap();
    assert!(!machine.halted);
}

#[test]
fn key_up_scancodes_produce_no_output() {
    let mut machine = machine_with_consumer();
    // 0x9E is the release of the key pressed as 0x1E
    machine.interrupt(0x1E).unwrap();
    machine.interrupt(0x9E).unwrap();
    machine.run().unwrap();
    assert_eq!(machine.output.len(), 1);
    assert!(matches!(machine.output[0], Key::Unicode('a')));
}

#[test]
fn spawn_returns_sequential_identifiers() {
    let mut machine = Machine::new();
    let a = machine.spawn(Computation::Immediate).unwrap();
    let b = machine.spawn(Computation::Immediate).unwrap();
    assert_eq!(a.0, 0);
    assert_eq!(b.0, 1);
}
