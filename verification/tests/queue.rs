use queue_broker::{AsyncQueue, Error, ValueOrReciever};
use tokio::sync::mpsc::error::TryRecvError;
use tokio::sync::mpsc::Receiver;

fn subscribe(queue: &mut AsyncQueue<&'static str>) -> Receiver<&'static str> {
    match queue.pop_with_subscribe() {
        ValueOrReciever::Receiver(receiver) => receiver,
        ValueOrReciever::Value(value) => panic!("expected a waiter, got the value {}", value),
    }
}

#[test]
fn new_queue_is_idle() {
    let queue: AsyncQueue<u32> = AsyncQueue::new(Some(4));
    assert_eq!(queue.len(), 0);
    assert_eq!(queue.subscribers(), 0);
}

#[test]
fn pops_follow_push_order() {
    let mut queue = AsyncQueue::new(None);
    for value in vec![10u32, 20, 30, 40, 50] {
        assert_eq!(queue.push(value), Ok(()));
    }
    assert_eq!(queue.len(), 5);
    assert_eq!(queue.pop(), Ok(10));
    assert_eq!(queue.pop(), Ok(20));
    assert_eq!(queue.pop(), Ok(30));
    assert_eq!(queue.pop(), Ok(40));
    assert_eq!(queue.pop(), Ok(50));
    assert_eq!(queue.len(), 0);
}

#[test]
fn pops_follow_push_order_between_pushes() {
    let mut queue = AsyncQueue::new(Some(2));
    assert_eq!(queue.push("a"), Ok(()));
    assert_eq!(queue.push("b"), Ok(()));
    assert_eq!(queue.pop(), Ok("a"));
    assert_eq!(queue.push("c"), Ok(()));
    assert_eq!(queue.pop(), Ok("b"));
    assert_eq!(queue.pop(), Ok("c"));
    assert_eq!(queue.pop(), Err(Error::QueueIsEmpty));
}

#[test]
fn push_beyond_capacity_fails_and_keeps_buffer() {
    let mut queue = AsyncQueue::new(Some(3));
    assert_eq!(queue.push(1u8), Ok(()));
    assert_eq!(queue.push(2), Ok(()));
    assert_eq!(queue.push(3), Ok(()));
    assert_eq!(queue.push(4), Err(Error::QueueIsFull));
    assert_eq!(queue.len(), 3);
    assert_eq!(queue.pop(), Ok(1));
    assert_eq!(queue.pop(), Ok(2));
    assert_eq!(queue.pop(), Ok(3));
    assert_eq!(queue.pop(), Err(Error::QueueIsEmpty));
}

#[test]
fn pop_frees_room_for_a_push() {
    let mut queue = AsyncQueue::new(Some(1));
    assert_eq!(queue.push(1u8), Ok(()));
    assert_eq!(queue.push(2), Err(Error::QueueIsFull));
    assert_eq!(queue.pop(), Ok(1));
    assert_eq!(queue.push(3), Ok(()));
    assert_eq!(queue.pop(), Ok(3));
}

#[test]
fn unbounded_queue_takes_many_values() {
    let mut queue = AsyncQueue::new(None);
    for value in 0..1000u32 {
        assert_eq!(queue.push(value), Ok(()));
    }
    assert_eq!(queue.len(), 1000);
    for value in 0..1000u32 {
        assert_eq!(queue.pop(), Ok(value));
    }
}

#[test]
fn capacity_zero_buffers_nothing() {
    let mut queue = AsyncQueue::new(Some(0));
    assert_eq!(queue.push("a"), Err(Error::QueueIsFull));
    assert_eq!(queue.len(), 0);
    assert_eq!(queue.pop(), Err(Error::QueueIsEmpty));
}

#[test]
fn capacity_zero_still_hands_to_a_waiter() {
    let mut queue = AsyncQueue::new(Some(0));
    let mut receiver = subscribe(&mut queue);
    assert_eq!(queue.push("a"), Ok(()));
    assert_eq!(receiver.try_recv(), Ok("a"));
    assert_eq!(queue.len(), 0);
    assert_eq!(queue.subscribers(), 0);
    assert_eq!(queue.push("b"), Err(Error::QueueIsFull));
}

#[test]
fn pop_on_empty_queue_fails() {
    let mut queue: AsyncQueue<u8> = AsyncQueue::new(None);
    assert_eq!(queue.pop(), Err(Error::QueueIsEmpty));
    assert_eq!(queue.len(), 0);
}

#[test]
fn pop_on_drained_queue_fails() {
    let mut queue = AsyncQueue::new(None);
    assert_eq!(queue.push(7u8), Ok(()));
    assert_eq!(queue.pop(), Ok(7));
    assert_eq!(queue.pop(), Err(Error::QueueIsEmpty));
    assert_eq!(queue.pop(), Err(Error::QueueIsEmpty));
}

#[test]
fn pop_ignores_waiters() {
    let mut queue = AsyncQueue::new(None);
    let mut receiver = subscribe(&mut queue);
    assert_eq!(queue.pop(), Err(Error::QueueIsEmpty));
    assert_eq!(queue.subscribers(), 1);
    assert_eq!(receiver.try_recv(), Err(TryRecvError::Empty));
}

#[test]
fn subscribe_takes_a_buffered_value_at_once() {
    let mut queue = AsyncQueue::new(None);
    assert_eq!(queue.push("first"), Ok(()));
    assert_eq!(queue.push("second"), Ok(()));
    match queue.pop_with_subscribe() {
        ValueOrReciever::Value(value) => assert_eq!(value, "first"),
        ValueOrReciever::Receiver(_) => panic!("a buffered value was there to take"),
    }
    assert_eq!(queue.subscribers(), 0);
    assert_eq!(queue.len(), 1);
    assert_eq!(queue.pop(), Ok("second"));
}

#[test]
fn subscribe_on_empty_queue_registers_a_waiter() {
    let mut queue = AsyncQueue::new(Some(2));
    let mut first = subscribe(&mut queue);
    assert_eq!(queue.subscribers(), 1);
    let mut second = subscribe(&mut queue);
    assert_eq!(queue.subscribers(), 2);
    assert_eq!(queue.len(), 0);
    assert_eq!(first.try_recv(), Err(TryRecvError::Empty));
    assert_eq!(second.try_recv(), Err(TryRecvError::Empty));
}

#[test]
fn push_hands_value_to_waiter_and_not_to_buffer() {
    let mut queue = AsyncQueue::new(None);
    let mut receiver = subscribe(&mut queue);
    assert_eq!(queue.push("v"), Ok(()));
    assert_eq!(receiver.try_recv(), Ok("v"));
    assert_eq!(queue.len(), 0);
    assert_eq!(queue.subscribers(), 0);
    assert_eq!(queue.pop(), Err(Error::QueueIsEmpty));
}

#[test]
fn waiter_gets_exactly_one_value() {
    let mut queue = AsyncQueue::new(None);
    let mut receiver = subscribe(&mut queue);
    assert_eq!(queue.push("one"), Ok(()));
    assert_eq!(queue.push("two"), Ok(()));
    assert_eq!(receiver.try_recv(), Ok("one"));
    assert_eq!(receiver.try_recv(), Err(TryRecvError::Closed));
    assert_eq!(queue.len(), 1);
    assert_eq!(queue.pop(), Ok("two"));
}

#[test]
fn waiters_are_served_in_registration_order() {
    let mut queue = AsyncQueue::new(None);
    let mut first = subscribe(&mut queue);
    let mut second = subscribe(&mut queue);
    assert_eq!(queue.push("one"), Ok(()));
    assert_eq!(queue.subscribers(), 1);
    assert_eq!(first.try_recv(), Ok("one"));
    assert_eq!(second.try_recv(), Err(TryRecvError::Empty));
    assert_eq!(queue.push("two"), Ok(()));
    assert_eq!(queue.subscribers(), 0);
    assert_eq!(second.try_recv(), Ok("two"));
    assert_eq!(queue.len(), 0);
}

#[test]
fn push_skips_waiter_that_gave_up() {
    let mut queue = AsyncQueue::new(None);
    let gone = subscribe(&mut queue);
    let mut live = subscribe(&mut queue);
    drop(gone);
    assert_eq!(queue.subscribers(), 2);
    assert_eq!(queue.push("v"), Ok(()));
    assert_eq!(live.try_recv(), Ok("v"));
    assert_eq!(queue.subscribers(), 0);
    assert_eq!(queue.len(), 0);
}

#[test]
fn push_sweeps_dead_waiters_and_buffers() {
    let mut queue = AsyncQueue::new(Some(1));
    drop(subscribe(&mut queue));
    drop(subscribe(&mut queue));
    assert_eq!(queue.subscribers(), 2);
    assert_eq!(queue.push("v"), Ok(()));
    assert_eq!(queue.subscribers(), 0);
    assert_eq!(queue.len(), 1);
    assert_eq!(queue.push("w"), Err(Error::QueueIsFull));
    assert_eq!(queue.pop(), Ok("v"));
}

#[test]
fn failed_push_still_sweeps_dead_waiters() {
    let mut queue = AsyncQueue::new(Some(0));
    drop(subscribe(&mut queue));
    assert_eq!(queue.push("v"), Err(Error::QueueIsFull));
    assert_eq!(queue.subscribers(), 0);
    assert_eq!(queue.len(), 0);
}
