use masa::task_queue::PriorityQueue;
use std::collections::BinaryHeap;

use masa::priority::PriorityHint;

#[test]
fn binary_heap_pops_infra_first() {
    let mut heap = BinaryHeap::new();
    heap.push(PriorityHint::new(500_000));
    heap.push(PriorityHint::new(250_000));
    heap.push(PriorityHint::infra());

    assert_eq!(heap.pop(), Some(PriorityHint::infra()));
    assert_eq!(heap.pop(), Some(PriorityHint::new(250_000)));
    assert_eq!(heap.pop(), Some(PriorityHint::new(500_000)));
    assert!(heap.is_empty());
}

#[test]
fn larger_deadline_means_lower_priority() {
    let mut heap = BinaryHeap::new();
    for offset in 0..5_u64 {
        heap.push(PriorityHint::new(1_000_000 + offset * 100));
    }

    let mut previous = PriorityHint::infra();
    while let Some(next) = heap.pop() {
        assert!(previous >= next, "heap returned out-of-order priority");
        previous = next;
    }
}

#[test]
fn smaller_value_is_more_urgent() {
    let a = PriorityHint::new(10);
    let b = PriorityHint::new(20);
    assert!(a.is_more_urgent_than(&b));
    assert!(!b.is_more_urgent_than(&a));
    assert_eq!(a.value(), 10);
    assert_eq!(PriorityHint::infra().value(), 0);
}

#[test]
fn run_queue_pops_highest_key_first() {
    let mut q = PriorityQueue::new();
    for (key, name) in [(5u64, "e"), (9, "i"), (1, "a"), (9, "j"), (7, "g"), (3, "c")] {
        q.push(key, name);
    }
    assert_eq!(q.len(), 6);
    assert!(!q.is_full());
    let mut keys = Vec::new();
    while let Some((key, _)) = q.pop() {
        keys.push(key);
    }
    assert_eq!(keys, vec![9, 9, 7, 5, 3, 1]);
    assert!(q.pop().is_none());
    assert_eq!(q.len(), 0);
}

#[test]
fn run_queue_orders_tasks_by_priority_hint() {
    // A larger urgency key is more urgent: a nearer deadline.
    let mut q = PriorityQueue::new();
    let late = PriorityHint::new(50_000);
    let soon = PriorityHint::new(10_000);
    q.push(u64::MAX - late.value(), "late");
    q.push(u64::MAX - soon.value(), "soon");
    q.push(u64::MAX - PriorityHint::infra().value(), "infra");
    assert_eq!(q.pop().map(|e| e.1), Some("infra"));
    assert_eq!(q.pop().map(|e| e.1), Some("soon"));
    assert_eq!(q.pop().map(|e| e.1), Some("late"));
}
