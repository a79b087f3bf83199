use sps_runtime::event::Event;
use sps_runtime::journal::DeliveryJournal;
use sps_runtime::reducer::{core_reducer, idempotent_reduce, ReducerRegistry};
use sps_runtime::state::AppState;

fn sample_event() -> Event {
    Event {
        id: 1,
        tick: 1,
        event_type: "Test".to_string(),
        payload: "core".to_string(),
        parent_id: None,
        vector_clock: String::new(),
    }
}

#[test]
fn test_determinism() {
    let mut registry = ReducerRegistry::new();
    registry.register("core", core_reducer);
    let state1 = AppState::default();
    let state2 = AppState::default();
    let mut journal = DeliveryJournal::new();
    let event = sample_event();
    let r1 = idempotent_reduce(state1, &event, &mut journal);
    let r2 = idempotent_reduce(state2, &event, &mut journal);
    assert_eq!(r1.counter, r2.counter);
}

#[test]
fn shared_journal_reduces_an_event_once() {
    let mut journal = DeliveryJournal::new();
    let event = sample_event();
    let r1 = idempotent_reduce(AppState::default(), &event, &mut journal);
    let r2 = idempotent_reduce(r1.clone(), &event, &mut journal);
    assert_eq!(r1.counter, 1);
    assert_eq!(r2.counter, 1);
    assert_eq!(r2.history, vec!["core".to_string()]);
    assert!(journal.already_processed(1));
    assert!(journal.holds_delivery(1, 1));
    assert!(!journal.holds_delivery(1, 0));
}
