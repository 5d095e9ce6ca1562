//! Ordering behavior of the deferred task scheduler.

use wlx_overlay::registry::OverlaySelector;
use wlx_overlay::task::{TaskContainer, TaskType};

fn tag(label: u32) -> TaskType<u32> {
    TaskType::CreateOverlay(OverlaySelector::Name(String::from("x")), label)
}

fn label_of(t: &TaskType<u32>) -> u32 {
    match t {
        TaskType::CreateOverlay(_, l) => *l,
        TaskType::DropOverlay(_) => panic!("unexpected drop task"),
    }
}

#[test]
fn drains_in_instant_order_regardless_of_enqueue_order() {
    let mut q: TaskContainer<u32> = TaskContainer::new();
    q.enqueue_at(tag(3), 300);
    q.enqueue_at(tag(1), 100);
    q.enqueue_at(tag(2), 200);
    let ready = q.drain_ready(1000);
    let labels: Vec<u32> = ready.iter().map(|t| label_of(&t.kind)).collect();
    assert_eq!(labels, vec![1, 2, 3]);
    let instants: Vec<u64> = ready.iter().map(|t| t.not_before).collect();
    assert_eq!(instants, vec![100, 200, 300]);
}

#[test]
fn equal_instants_drain_in_enqueue_order() {
    let mut q: TaskContainer<u32> = TaskContainer::new();
    q.enqueue_at(tag(10), 500);
    q.enqueue_at(tag(11), 500);
    q.enqueue_at(tag(12), 500);
    let ready = q.drain_ready(500);
    let labels: Vec<u32> = ready.iter().map(|t| label_of(&t.kind)).collect();
    assert_eq!(labels, vec![10, 11, 12]);
    assert!(ready[0].serial < ready[1].serial);
    assert!(ready[1].serial < ready[2].serial);
}

#[test]
fn mixed_instants_stay_stable_on_ties() {
    let mut q: TaskContainer<u32> = TaskContainer::new();
    q.enqueue_at(tag(21), 200);
    q.enqueue_at(tag(20), 100);
    q.enqueue_at(tag(22), 200);
    q.enqueue_at(tag(23), 100);
    let ready = q.drain_ready(200);
    let labels: Vec<u32> = ready.iter().map(|t| label_of(&t.kind)).collect();
    assert_eq!(labels, vec![20, 23, 21, 22]);
}

#[test]
fn drain_takes_only_elapsed_tasks() {
    let mut q: TaskContainer<u32> = TaskContainer::new();
    q.enqueue_at(tag(1), 100);
    q.enqueue_at(tag(2), 200);
    let first = q.drain_ready(150);
    assert_eq!(first.len(), 1);
    assert_eq!(label_of(&first[0].kind), 1);
    assert_eq!(q.len(), 1);
    let second = q.drain_ready(250);
    assert_eq!(second.len(), 1);
    assert_eq!(label_of(&second[0].kind), 2);
    assert_eq!(q.len(), 0);
}

#[test]
fn drain_on_empty_queue_returns_nothing() {
    let mut q: TaskContainer<u32> = TaskContainer::new();
    let ready = q.drain_ready(42);
    assert!(ready.is_empty());
}

#[test]
fn enqueue_now_is_eligible_immediately() {
    let mut q: TaskContainer<u32> = TaskContainer::new();
    q.enqueue_now(tag(7), 900);
    let ready = q.drain_ready(900);
    assert_eq!(ready.len(), 1);
    assert_eq!(ready[0].not_before, 900);
}

#[test]
fn task_not_before_its_instant() {
    let mut q: TaskContainer<u32> = TaskContainer::new();
    q.enqueue_at(tag(1), 100);
    let ready = q.drain_ready(99);
    assert!(ready.is_empty());
    assert_eq!(q.len(), 1);
}
