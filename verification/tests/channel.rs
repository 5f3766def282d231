use swag_kernel::queues::{task_queue_new, task_queue_pop};
use swag_kernel::task::executor::TaskWaker;
use swag_kernel::task::keyboard::{
    add_scancode, print_keypresses, Publish, ScancodeChannel, ScancodeStream,
    SCANCODE_QUEUE_CAPACITY,
};
use swag_kernel::task::{Computation, TaskId};
use swag_kernel::Fatal;

#[test]
fn second_stream_construction_is_fatal() {
    let mut chan = ScancodeChannel::new();
    assert!(ScancodeStream::new(&mut chan).is_ok());
    match ScancodeStream::new(&mut chan) {
        Err(Fatal::ChannelAlreadyInitialized) => (),
        _ => panic!("a second construction must be fatal"),
    }
}

#[test]
fn second_consumer_construction_is_fatal() {
    let mut chan = ScancodeChannel::new();
    match print_keypresses(&mut chan) {
        Ok(Computation::Keypresses(_)) => (),
        _ => panic!("first construction must yield the consumer"),
    }
    match print_keypresses(&mut chan) {
        Err(Fatal::ChannelAlreadyInitialized) => (),
        _ => panic!("a second construction must be fatal"),
    }
}

#[test]
fn publish_to_uninitialized_channel_drops_the_event() {
    let mut chan = ScancodeChannel::new();
    let mut ready = task_queue_new(4);
    assert_eq!(add_scancode(&mut chan, &mut ready, 0x1E), Ok(Publish::DroppedUninitialized));
    assert_eq!(task_queue_pop(&mut ready), None);
}

#[test]
fn published_scancodes_are_polled_in_fifo_order() {
    let mut chan = ScancodeChannel::new();
    let mut stream = ScancodeStream::new(&mut chan).unwrap();
    let mut ready = task_queue_new(4);
    for byte in [10u8, 20, 30] {
        assert_eq!(add_scancode(&mut chan, &mut ready, byte), Ok(Publish::Enqueued));
    }
    let waker = TaskWaker::new_waker(TaskId(0));
    assert_eq!(stream.poll_next(&mut chan, waker), Some(10));
    assert_eq!(stream.poll_next(&mut chan, waker), Some(20));
    assert_eq!(stream.poll_next(&mut chan, waker), Some(30));
    assert_eq!(stream.poll_next(&mut chan, waker), None);
}

#[test]
fn publish_wakes_the_registered_waker() {
    let mut chan = ScancodeChannel::new();
    let mut stream = ScancodeStream::new(&mut chan).unwrap();
    let mut ready = task_queue_new(4);
    let waker = TaskWaker::new_waker(TaskId(7));
    // empty queue: the poll registers the waker and reports pending
    assert_eq!(stream.poll_next(&mut chan, waker), None);
    // the publish queues the byte and wakes exactly that task
    assert_eq!(add_scancode(&mut chan, &mut ready, 0x1E), Ok(Publish::EnqueuedAndWoken));
    assert_eq!(task_queue_pop(&mut ready), Some(7));
    // the waker was consumed: another publish wakes nobody
    assert_eq!(add_scancode(&mut chan, &mut ready, 0x1F), Ok(Publish::Enqueued));
    assert_eq!(task_queue_pop(&mut ready), None);
}

#[test]
fn publish_on_a_full_scancode_queue_is_fatal() {
    let mut chan = ScancodeChannel::new();
    let _stream = ScancodeStream::new(&mut chan).unwrap();
    let mut ready = task_queue_new(4);
    for _ in 0..SCANCODE_QUEUE_CAPACITY {
        assert_eq!(add_scancode(&mut chan, &mut ready, 0x1E), Ok(Publish::Enqueued));
    }
    assert_eq!(add_scancode(&mut chan, &mut ready, 0x1E), Err(Fatal::ScancodeQueueFull));
}

#[test]
fn ready_queue_operations_are_fifo() {
    let mut ready = task_queue_new(3);
    let first = TaskWaker::new_waker(TaskId(1));
    let second = TaskWaker::new_waker(TaskId(2));
    first.wake(&mut ready).unwrap();
    second.wake(&mut ready).unwrap();
    assert_eq!(task_queue_pop(&mut ready), Some(1));
    assert_eq!(task_queue_pop(&mut ready), Some(2));
    assert_eq!(task_queue_pop(&mut ready), None);
}
