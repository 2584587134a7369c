use overstory::ids::ElementId;
use overstory::runtime::{Interaction, InteractionBatch};
use overstory::timer::TimerQueue;

#[test]
fn timers_fire_in_deadline_order_and_one_shots_leave() {
    let mut q = TimerQueue::new();
    assert!(q.is_empty());
    let late = q.request(ElementId(1), 0, 300, None);
    let early = q.request(ElementId(2), 0, 100, None);
    let mid = q.request(ElementId(3), 0, 200, None);
    assert_eq!(q.next_deadline(), Some(100));
    let fired = q.drain_expired(250);
    assert_eq!(fired, vec![(early, ElementId(2)), (mid, ElementId(3))]);
    assert_eq!(q.next_deadline(), Some(300));
    let fired = q.drain_expired(300);
    assert_eq!(fired, vec![(late, ElementId(1))]);
    assert!(q.is_empty());
    assert_eq!(q.next_deadline(), None);
}

#[test]
fn repeating_timers_rearm_after_now() {
    let mut q = TimerQueue::new();
    let t = q.request(ElementId(7), 1_000, 50, Some(100));
    assert_eq!(q.next_deadline(), Some(1_050));
    let fired = q.drain_expired(1_070);
    assert_eq!(fired, vec![(t, ElementId(7))]);
    assert_eq!(q.next_deadline(), Some(1_170));
    assert!(q.drain_expired(1_100).is_empty());
}

#[test]
fn cancel_removes_only_that_timer() {
    let mut q = TimerQueue::new();
    let a = q.request(ElementId(1), 0, 10, None);
    let b = q.request(ElementId(2), 0, 20, None);
    q.cancel(a);
    assert_eq!(q.next_deadline(), Some(20));
    q.cancel(a);
    assert_eq!(q.drain_expired(100), vec![(b, ElementId(2))]);
}

#[test]
fn equal_deadlines_fire_in_request_order() {
    let mut q = TimerQueue::new();
    let first = q.request(ElementId(1), 5, 5, None);
    let second = q.request(ElementId(2), 0, 10, None);
    assert_ne!(first, second);
    assert_eq!(q.drain_expired(10), vec![(first, ElementId(1)), (second, ElementId(2))]);
}

#[test]
fn deadlines_saturate() {
    let mut q = TimerQueue::new();
    q.request(ElementId(1), u64::MAX - 1, 10, None);
    assert_eq!(q.next_deadline(), Some(u64::MAX));
}

#[test]
fn request_then_cancel_restores_the_queue() {
    let mut q = TimerQueue::new();
    q.request(ElementId(1), 0, 10, None);
    let extra = q.request(ElementId(2), 0, 5, None);
    q.cancel(extra);
    assert_eq!(q.next_deadline(), Some(10));
}

#[test]
fn a_requested_timer_fires_exactly_once_its_deadline_passes() {
    let mut q = TimerQueue::new();
    q.request(ElementId(1), 0, 50, None);
    let t = q.request(ElementId(2), 0, 120, None);
    q.request(ElementId(3), 0, 200, None);
    assert!(!q.drain_expired(119).contains(&(t, ElementId(2))));
    assert!(q.drain_expired(120).contains(&(t, ElementId(2))));
    assert!(!q.drain_expired(1_000).contains(&(t, ElementId(2))));
}

#[test]
fn request_ids_are_fresh() {
    let mut q = TimerQueue::new();
    let mut ids = Vec::new();
    for i in 0..500u64 {
        let id = q.request(ElementId(1), 0, i, None);
        assert!(!ids.contains(&id));
        ids.push(id);
    }
}

#[test]
fn draining_keeps_undue_timers_and_rearms_repeating_ones() {
    let mut q = TimerQueue::new();
    let a = q.request(ElementId(1), 0, 10, None);
    let b = q.request(ElementId(2), 0, 20, Some(100));
    let c = q.request(ElementId(3), 0, 500, None);
    assert_eq!(q.drain_expired(50), vec![(a, ElementId(1)), (b, ElementId(2))]);
    // Left: `c`, not yet due, and `b` re-armed to 50 + 100.
    assert_eq!(q.next_deadline(), Some(150));
    assert_eq!(q.drain_expired(149), vec![]);
    assert_eq!(q.drain_expired(150), vec![(b, ElementId(2))]);
    assert_eq!(q.next_deadline(), Some(250));
    q.cancel(b);
    assert_eq!(q.drain_expired(1_000), vec![(c, ElementId(3))]);
    assert!(q.is_empty());
}

#[test]
fn pushed_interactions_keep_emission_order() {
    let items = [
        Interaction::HoverEntered(ElementId(1)),
        Interaction::Clicked(ElementId(2)),
        Interaction::HoverEntered(ElementId(3)),
    ];
    let mut batch = InteractionBatch::default();
    assert!(batch.is_empty());
    for item in items.iter().cloned() {
        batch.push(item);
    }
    assert!(!batch.is_empty());
    assert_eq!(batch.events(), &items);
}
