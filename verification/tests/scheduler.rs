use swag_kernel::task::executor::{Executor, TaskWaker, TASK_QUEUE_CAPACITY};
use swag_kernel::task::keyboard::{Key, ScancodeChannel};
use swag_kernel::task::{Computation, Task, TaskId, TaskIdAllocator};
use swag_kernel::queues::{task_queue_is_empty, task_queue_pop};
use swag_kernel::Fatal;

#[test]
fn task_id_allocator_is_monotonic() {
    let mut ids = TaskIdAllocator::new();
    assert_eq!(TaskId::new(&mut ids), TaskId(0));
    assert_eq!(TaskId::new(&mut ids), TaskId(1));
    assert_eq!(TaskId::new(&mut ids), TaskId(2));
}

#[test]
fn task_new_assigns_fresh_ids() {
    let mut ids = TaskIdAllocator::new();
    let t1 = Task::new(&mut ids, Computation::Immediate);
    let t2 = Task::new(&mut ids, Computation::Immediate);
    assert_ne!(t1.id, t2.id);
}

#[test]
fn spawn_enqueues_the_task_id() {
    let mut ids = TaskIdAllocator::new();
    let mut executor = Executor::new();
    let task = Task::new(&mut ids, Computation::Immediate);
    let id = task.id;
    executor.spawn(task).unwrap();
    assert!(executor.tasks.contains_key(&id.0));
    assert_eq!(task_queue_pop(&mut executor.task_queue), Some(id.0));
}

#[test]
fn spawned_tasks_are_polled_before_idle() {
    // every spawned task is polled at least once by the next pass: an
    // immediately-ready task shows this by leaving the table
    let mut ids = TaskIdAllocator::new();
    let mut executor = Executor::new();
    let mut spawned: Vec<TaskId> = Vec::new();
    for _ in 0..5 {
        let task = Task::new(&mut ids, Computation::Immediate);
        spawned.push(task.id);
        executor.spawn(task).unwrap();
    }
    let mut chan = ScancodeChannel::new();
    let mut out: Vec<Key> = Vec::new();
    executor.run_ready_tasks(&mut chan, &mut out);
    assert!(task_queue_is_empty(&executor.task_queue));
    for id in spawned {
        assert!(!executor.tasks.contains_key(&id.0));
    }
    assert!(out.is_empty());
}

#[test]
fn immediate_task_is_removed_after_exactly_one_poll() {
    let mut ids = TaskIdAllocator::new();
    let mut executor = Executor::new();
    let task = Task::new(&mut ids, Computation::Immediate);
    let id = task.id;
    executor.spawn(task).unwrap();
    let mut chan = ScancodeChannel::new();
    let mut out: Vec<Key> = Vec::new();
    executor.run_ready_tasks(&mut chan, &mut out);
    assert!(!executor.tasks.contains_key(&id.0));
    assert!(!executor.waker_cache.contains_key(&id.0));
}

#[test]
fn spawn_on_a_full_ready_queue_is_fatal() {
    let mut ids = TaskIdAllocator::new();
    let mut executor = Executor::new();
    for _ in 0..TASK_QUEUE_CAPACITY {
        let task = Task::new(&mut ids, Computation::Immediate);
        assert_eq!(executor.spawn(task), Ok(()));
    }
    let task = Task::new(&mut ids, Computation::Immediate);
    assert_eq!(executor.spawn(task), Err(Fatal::ReadyQueueFull));
}

#[test]
fn wake_on_a_full_ready_queue_is_fatal() {
    let mut executor = Executor::new();
    let waker = TaskWaker::new_waker(TaskId(3));
    for _ in 0..TASK_QUEUE_CAPACITY {
        assert_eq!(waker.wake(&mut executor.task_queue), Ok(()));
    }
    assert_eq!(waker.wake(&mut executor.task_queue), Err(Fatal::ReadyQueueFull));
}

#[test]
fn duplicate_task_id_is_fatal() {
    // a second allocator restarts at zero: spawning its task trips the
    // duplicate-identifier check, the broken-allocator diagnostic
    let mut ids = TaskIdAllocator::new();
    let mut executor = Executor::new();
    executor.spawn(Task::new(&mut ids, Computation::Immediate)).unwrap();
    let mut rogue_ids = TaskIdAllocator::new();
    let clash = Task::new(&mut rogue_ids, Computation::Immediate);
    assert_eq!(executor.spawn(clash), Err(Fatal::DuplicateTaskId));
}

#[test]
fn duplicate_ready_entries_are_idempotent() {
    // the task completes at its first encounter in the pass; the second
    // encounter finds it absent and is a no-op
    let mut ids = TaskIdAllocator::new();
    let mut executor = Executor::new();
    let task = Task::new(&mut ids, Computation::Immediate);
    let id = task.id;
    executor.spawn(task).unwrap();
    let waker = TaskWaker::new_waker(id);
    waker.wake(&mut executor.task_queue).unwrap();
    assert!(!task_queue_is_empty(&executor.task_queue));
    let mut chan = ScancodeChannel::new();
    let mut out: Vec<Key> = Vec::new();
    executor.run_ready_tasks(&mut chan, &mut out);
    assert!(task_queue_is_empty(&executor.task_queue));
    assert!(!executor.tasks.contains_key(&id.0));
    assert!(!executor.waker_cache.contains_key(&id.0));
}

#[test]
fn stale_wake_for_unknown_task_is_ignored() {
    let mut executor = Executor::new();
    let waker = TaskWaker::new_waker(TaskId(99));
    waker.wake(&mut executor.task_queue).unwrap();
    let mut chan = ScancodeChannel::new();
    let mut out: Vec<Key> = Vec::new();
    executor.run_ready_tasks(&mut chan, &mut out);
    assert!(task_queue_is_empty(&executor.task_queue));
    assert!(executor.tasks.is_empty());
}
