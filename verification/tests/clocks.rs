use sps_runtime::logical_clock::LogicalClock;
use sps_runtime::vector_clock::VectorClock;

#[test]
fn vector_clock_starts_at_zero_for_its_node() {
    let c = VectorClock::new(7);
    assert_eq!(c.to_string(), "7:0");
}

#[test]
fn vector_clock_increment_and_text_in_node_order() {
    let mut c = VectorClock::new(3);
    c.increment(1);
    c.increment(3);
    c.increment(3);
    assert_eq!(c.to_string(), "1:1, 3:2");
}

#[test]
fn vector_clock_merge_takes_larger_ticks() {
    let mut a = VectorClock::new(1);
    a.increment(1);
    a.increment(1);
    let mut b = VectorClock::new(2);
    b.increment(2);
    b.increment(1);
    a.merge(&b);
    assert_eq!(a.to_string(), "1:2, 2:1");
}

#[test]
fn vector_clock_merge_is_commutative_on_values() {
    let mut a = VectorClock::new(1);
    a.increment(1);
    let mut b = VectorClock::new(2);
    b.increment(2);
    b.increment(2);
    let mut ab = a.clone();
    ab.merge(&b);
    let mut ba = b.clone();
    ba.merge(&a);
    assert_eq!(ab.to_string(), ba.to_string());
}

#[test]
fn vector_clock_merge_is_idempotent() {
    let mut a = VectorClock::new(4);
    a.increment(4);
    let before = a.to_string();
    let copy = a.clone();
    a.merge(&copy);
    assert_eq!(a.to_string(), before);
}

#[test]
fn vector_clock_happened_before_and_concurrency() {
    let a = VectorClock::new(1);
    let mut b = a.clone();
    b.increment(1);
    assert!(a.happened_before(&b));
    assert!(!b.happened_before(&a));
    assert!(!a.happened_before(&a));
    let mut c = a.clone();
    c.increment(2);
    assert!(b.is_concurrent(&c));
    assert!(c.is_concurrent(&b));
    assert!(!a.is_concurrent(&b));
}

#[test]
fn vector_clock_precedence_is_transitive() {
    let a = VectorClock::new(1);
    let mut b = a.clone();
    b.increment(1);
    let mut c = b.clone();
    c.increment(2);
    assert!(a.happened_before(&b) && b.happened_before(&c));
    assert!(a.happened_before(&c));
}

#[test]
fn vector_clock_missing_node_counts_as_zero() {
    let a = VectorClock::new(1);
    let b = VectorClock::new(2);
    assert!(!a.happened_before(&b));
    assert!(a.is_concurrent(&b));
}

#[test]
fn logical_clock_ticks_and_ids() {
    let mut clock = LogicalClock::new(9);
    assert_eq!(clock.current_tick(), 1);
    assert_eq!(clock.last_id(), None);
    assert_eq!(clock.next_tick(), 1);
    assert_eq!(clock.next_tick(), 2);
    assert_eq!(clock.current_tick(), 3);
    assert_eq!(clock.next_id(), 1);
    assert_eq!(clock.next_id(), 2);
    assert_eq!(clock.last_id(), Some(2));
    assert_eq!(clock.vector_clock_string(), "0:2, 9:0");
    clock.advance(5);
    assert_eq!(clock.current_tick(), 3);
}
