use std::cmp::Ordering;

use disco_foundation::clock::Timestamp;
use disco_foundation::queue::{DeadLetterQueue, InMemoryTaskQueue, Priority, QueueError, TaskEnvelope, TaskQueue};
use disco_foundation::task::TaskId;

fn envelope(id: u128, priority: i32, at: u64) -> TaskEnvelope {
    let mut e = TaskEnvelope::new(TaskId(id), format!("task-{id}"), vec![id as u8]);
    e.priority = Priority(priority);
    e.enqueued_at = Timestamp::from_millis(at);
    e
}

#[test]
fn new_envelope_has_defaults() {
    let e = TaskEnvelope::new(TaskId(5), "multiply".to_string(), vec![1, 2]);
    assert_eq!(e.task_id, TaskId(5));
    assert_eq!(e.name, "multiply");
    assert_eq!(e.payload, vec![1, 2]);
    assert_eq!(e.attempt.0, 1);
    assert_eq!(e.priority, Priority::normal());
    assert_eq!(e.enqueued_at, Timestamp::zero());
    assert!(e.deadline.is_none());
    assert!(!e.cancellable);
}

#[test]
fn priorities_have_fixed_levels() {
    assert_eq!(Priority::low().0, -10);
    assert_eq!(Priority::normal().0, 0);
    assert_eq!(Priority::high().0, 10);
}

#[test]
fn higher_priority_pops_first() {
    let mut q = InMemoryTaskQueue::new();
    q.push(envelope(1, 0, 0)).unwrap();
    q.push(envelope(2, 10, 5)).unwrap();
    q.push(envelope(3, -10, 0)).unwrap();
    assert_eq!(q.pop().unwrap().task_id, TaskId(2));
    assert_eq!(q.pop().unwrap().task_id, TaskId(1));
    assert_eq!(q.pop().unwrap().task_id, TaskId(3));
    assert!(q.pop().is_none());
    assert_eq!(q.inflight(), 3);
}

#[test]
fn equal_priority_is_fifo_then_by_id() {
    let mut q = InMemoryTaskQueue::new();
    q.push(envelope(9, 1, 20)).unwrap();
    q.push(envelope(8, 1, 10)).unwrap();
    q.push(envelope(7, 1, 20)).unwrap();
    assert_eq!(q.pop().unwrap().task_id, TaskId(8));
    assert_eq!(q.pop().unwrap().task_id, TaskId(7));
    assert_eq!(q.pop().unwrap().task_id, TaskId(9));
}

#[test]
fn compare_follows_dequeue_order() {
    let a = envelope(1, 5, 0);
    let b = envelope(2, 5, 0);
    let c = envelope(3, 6, 100);
    assert_eq!(a.cmp(&b), Ordering::Greater);
    assert_eq!(b.cmp(&a), Ordering::Less);
    assert_eq!(c.cmp(&a), Ordering::Greater);
    assert_eq!(a.cmp(&a), Ordering::Equal);
    assert_eq!(a.partial_cmp(&c), Some(Ordering::Less));
}

#[test]
fn peek_does_not_remove() {
    let mut q = InMemoryTaskQueue::new();
    assert!(q.peek().is_none());
    q.push(envelope(1, 0, 0)).unwrap();
    q.push(envelope(2, 3, 0)).unwrap();
    assert_eq!(q.peek().unwrap().task_id, TaskId(2));
    assert_eq!(q.len(), 2);
    assert_eq!(q.pop().unwrap().task_id, TaskId(2));
}

#[test]
fn bounded_queue_reports_full() {
    let mut q = InMemoryTaskQueue::bounded(1);
    q.push(envelope(1, 0, 0)).unwrap();
    assert_eq!(q.push(envelope(2, 0, 0)), Err(QueueError::Full));
    assert_eq!(q.len(), 1);
}

#[test]
fn duplicates_are_rejected_pending_or_in_flight() {
    let mut q = InMemoryTaskQueue::unbounded();
    q.push(envelope(1, 0, 0)).unwrap();
    assert_eq!(q.push(envelope(1, 4, 0)), Err(QueueError::Duplicate(TaskId(1))));
    q.pop().unwrap();
    assert_eq!(q.push(envelope(1, 4, 0)), Err(QueueError::Duplicate(TaskId(1))));
}

#[test]
fn ack_removes_in_flight() {
    let mut q = InMemoryTaskQueue::new();
    q.push(envelope(1, 0, 0)).unwrap();
    q.pop().unwrap();
    assert_eq!(q.ack(TaskId(1)), Ok(()));
    assert_eq!(q.inflight(), 0);
    assert_eq!(q.ack(TaskId(1)), Err(QueueError::NotFound(TaskId(1))));
}

#[test]
fn nack_requeues_or_drops() {
    let mut q = InMemoryTaskQueue::new();
    q.push(envelope(1, 0, 0)).unwrap();
    q.push(envelope(2, 0, 1)).unwrap();
    q.pop().unwrap();
    q.pop().unwrap();
    assert_eq!(q.nack(TaskId(1), true), Ok(()));
    assert_eq!(q.nack(TaskId(2), false), Ok(()));
    assert_eq!(q.len(), 1);
    assert_eq!(q.inflight(), 0);
    assert_eq!(q.pop().unwrap().task_id, TaskId(1));
    assert_eq!(q.nack(TaskId(7), true), Err(QueueError::NotFound(TaskId(7))));
}

#[test]
fn cancel_removes_only_pending() {
    let mut q = InMemoryTaskQueue::new();
    q.push(envelope(1, 0, 0)).unwrap();
    q.push(envelope(2, 0, 0)).unwrap();
    assert_eq!(q.cancel(TaskId(2)), Ok(()));
    assert_eq!(q.len(), 1);
    assert_eq!(q.cancel(TaskId(2)), Err(QueueError::NotFound(TaskId(2))));
    q.pop().unwrap();
    assert_eq!(q.cancel(TaskId(1)), Err(QueueError::NotFound(TaskId(1))));
    assert!(q.is_empty());
}

#[test]
fn push_then_cancel_restores_queue() {
    let mut q = InMemoryTaskQueue::new();
    q.push(envelope(1, 0, 0)).unwrap();
    q.push(envelope(2, 1, 0)).unwrap();
    q.cancel(TaskId(2)).unwrap();
    assert_eq!(q.len(), 1);
    assert_eq!(q.peek().unwrap().task_id, TaskId(1));
}

#[test]
fn popped_envelope_keeps_its_contents() {
    let mut q = InMemoryTaskQueue::default();
    q.push(envelope(4, 2, 3)).unwrap();
    let e = q.pop().unwrap();
    assert_eq!(e.name, "task-4");
    assert_eq!(e.payload, vec![4]);
    assert_eq!(e.enqueued_at, Timestamp::from_millis(3));
}

#[test]
fn dead_letters_drain_in_arrival_order() {
    let mut dlq = DeadLetterQueue::new();
    assert!(dlq.is_empty());
    dlq.push(envelope(1, 0, 0));
    dlq.push(envelope(2, 9, 0));
    assert_eq!(dlq.len(), 2);
    let drained = dlq.drain();
    assert_eq!(drained.iter().map(|e| e.task_id).collect::<Vec<_>>(), vec![TaskId(1), TaskId(2)]);
    assert!(dlq.is_empty());
    assert_eq!(DeadLetterQueue::default().len(), 0);
}

#[test]
fn zero_capacity_queue_rejects_every_push() {
    let mut q = InMemoryTaskQueue::bounded(0);
    assert_eq!(q.push(TaskEnvelope::new(TaskId::new(), "t".to_string(), vec![])), Err(QueueError::Full));
    assert_eq!(q.len(), 0);
    assert_eq!(q.inflight(), 0);
}

#[test]
fn unbounded_queue_is_never_full() {
    let mut q = InMemoryTaskQueue::unbounded();
    for id in 0..500u128 {
        assert_eq!(q.push(envelope(id, 0, 0)), Ok(()));
    }
    assert_eq!(q.len(), 500);
}

#[test]
fn counts_follow_accepted_operations() {
    let mut q = InMemoryTaskQueue::bounded(3);
    q.push(envelope(1, 0, 0)).unwrap();
    q.push(envelope(2, 0, 1)).unwrap();
    q.push(envelope(3, 0, 2)).unwrap();
    assert_eq!(q.push(envelope(4, 0, 3)), Err(QueueError::Full));
    q.pop().unwrap();
    q.pop().unwrap();
    assert_eq!((q.len(), q.inflight()), (1, 2));
    q.ack(TaskId(1)).unwrap();
    q.nack(TaskId(2), false).unwrap();
    q.cancel(TaskId(3)).unwrap();
    assert_eq!((q.len(), q.inflight()), (0, 0));
}

#[test]
fn requeueing_nack_ignores_the_bound() {
    let mut q = InMemoryTaskQueue::bounded(1);
    q.push(envelope(1, 0, 0)).unwrap();
    q.pop().unwrap();
    q.push(envelope(2, 0, 1)).unwrap();
    assert_eq!(q.nack(TaskId(1), true), Ok(()));
    assert_eq!(q.len(), 2);
    assert_eq!(q.push(envelope(3, 0, 2)), Err(QueueError::Full));
}
