use sps_runtime::event::Event;
use sps_runtime::partition::PartitionManager;
use sps_runtime::proving::{live_state, replay_agrees, replay_from, run_proof};
use sps_runtime::reducer::{core_reducer, reduce, ReducerRegistry};
use sps_runtime::reducer_guard::validate_transition;
use sps_runtime::reducer_registry::ReducerRegistry as TypedRegistry;
use sps_runtime::replay::ReplayEngine;
use sps_runtime::sort::sort_keys3;
use sps_runtime::state::AppState;
use sps_runtime::state_store::StateStore;
use sps_runtime::stress::{generate_deterministic_events, run_stress_test, StressKind};
use sps_runtime::state::WorkflowState;

fn event(id: u64, tick: u64, payload: &str) -> Event {
    Event {
        id,
        tick,
        event_type: "core".to_string(),
        payload: payload.to_string(),
        parent_id: None,
        vector_clock: String::new(),
    }
}

#[test]
fn reducers_count_and_record() {
    let s = core_reducer(AppState::default(), &event(1, 1, "a"));
    let s = reduce(s, &event(2, 2, "b"));
    assert_eq!(s.counter, 2);
    assert_eq!(s.history, vec!["a".to_string(), "b".to_string()]);
    let mut registry: ReducerRegistry<fn(AppState, &Event) -> AppState> = ReducerRegistry::new();
    registry.register("core", core_reducer);
    registry.register("reset", reset_reducer);
    let s = registry.dispatch("core", s, &event(3, 3, "c"));
    assert_eq!(s.counter, 3);
    let r = registry.dispatch("reset", s, &event(4, 4, "d"));
    assert_eq!(r.counter, 0);
    registry.register("core", reset_reducer);
    let again = registry.dispatch("core", core_reducer(AppState::default(), &event(5, 5, "e")), &event(6, 6, "f"));
    assert_eq!(again.counter, 0);
}

fn reset_reducer(_state: AppState, _event: &Event) -> AppState {
    AppState::default()
}

fn core_handler(state: &AppState, event: &Event) -> AppState {
    core_reducer(state.clone(), event)
}

fn keep_handler(state: &AppState, _event: &Event) -> AppState {
    state.clone()
}

#[test]
fn typed_registry_dispatches_by_event_type() {
    let mut registry: TypedRegistry<fn(&AppState, &Event) -> AppState> = TypedRegistry::new();
    registry.register("core".to_string(), keep_handler);
    assert_eq!(registry.total_reducers(), 1);
    registry.register("core".to_string(), core_handler);
    registry.register("audit".to_string(), keep_handler);
    assert_eq!(registry.total_reducers(), 2);
    let s = registry.dispatch(&AppState::default(), &event(1, 1, "x"));
    assert_eq!(s.counter, 1);
    let mut other = event(2, 2, "y");
    other.event_type = "unknown".to_string();
    let t = registry.dispatch(&s, &other);
    assert_eq!(t.counter, 1);
}

#[test]
fn guard_checks_each_invariant_in_turn() {
    let prev = AppState::default();
    let mut next = AppState::default();
    assert_eq!(validate_transition(&prev, &next, &event(7, 0, "")), Err("invalid counter transition at event 7".to_string()));
    next.counter = 1;
    next.last_tick = 4;
    assert_eq!(validate_transition(&prev, &next, &event(7, 5, "")), Err("state tick mismatch at event 7".to_string()));
    assert_eq!(validate_transition(&prev, &next, &event(7, 4, "")), Err("history corruption at event 7".to_string()));
    next.history.push("x".to_string());
    assert_eq!(validate_transition(&prev, &next, &event(7, 4, "")), Ok(()));
    let mut later = AppState::default();
    later.last_tick = 9;
    let mut back = AppState::default();
    back.counter = 1;
    back.last_tick = 3;
    assert_eq!(validate_transition(&later, &back, &event(8, 3, "")), Err("logical clock regression at event 8".to_string()));
}

#[test]
fn replay_engine_rebuilds_the_live_state() {
    let events = vec![event(1, 1, "a"), event(2, 2, "b")];
    let mut store = StateStore::new();
    for e in &events {
        store.apply_event(e);
    }
    let engine = ReplayEngine::new(events.clone());
    assert_eq!(engine.stream_count(), 2);
    let (state, n) = engine.replay_full();
    assert_eq!((state.counter, n), (2, 2));
    let hash = |s: &AppState| format!("{}|{}", s.counter, s.history.join(","));
    assert!(engine.validate_determinism(&hash(&store.read_state()), hash));
    let mut other = StateStore::new();
    other.apply_event(&events[0]);
    assert!(!engine.validate_determinism(&hash(&other.read_state()), hash));
    assert!(!engine.validate_determinism("2|b,a", hash));
    let mut rebuilt = StateStore::new();
    rebuilt.rebuild_from_log(&events);
    assert_eq!(rebuilt.read_state().history, store.read_state().history);
}

#[test]
fn live_state_counts_each_id_once() {
    let events = vec![event(1, 1, "a"), event(1, 2, "again"), event(2, 3, "b")];
    let s = live_state(&events);
    assert_eq!(s.counter, 2);
    assert_eq!(s.history, vec!["a".to_string(), "b".to_string()]);
}

#[test]
fn replay_from_a_snapshot_agrees_with_live() {
    let events = vec![event(1, 1, "a"), event(2, 2, "b"), event(3, 3, "c")];
    let snap = live_state(&events[..2].to_vec());
    assert!(replay_agrees(&events, &events, Some((snap, 2))));
    assert!(replay_agrees(&events, &events, None));
    let whole = live_state(&events);
    assert!(replay_agrees(&events, &events, Some((whole, 3))));
    assert!(replay_agrees(&events, &events, Some((live_state(&events), 10))));
}

#[test]
fn redelivery_across_the_snapshot_breaks_the_replay() {
    let events = vec![event(1, 1, "a"), event(1, 2, "a again")];
    let snap = live_state(&events[..1].to_vec());
    let replayed = replay_from(Some((snap, 1)), &events);
    assert_eq!(replayed.counter, 2);
    assert!(!replay_agrees(&events, &events, Some((live_state(&events[..1].to_vec()), 1))));
}

#[test]
fn lost_event_after_a_crash_is_detected() {
    let events = vec![event(1, 1, "a"), event(2, 2, "b")];
    let log = vec![event(1, 1, "a")];
    assert!(!replay_agrees(&events, &log, None));
    assert!(run_stress_test(&events, &events, None));
}

#[test]
fn stress_schedule() {
    let steps = generate_deterministic_events(451, 2);
    assert_eq!(steps.len(), 451);
    assert_eq!((steps[0].id, steps[0].tick, steps[0].kind), (2000, 1, StressKind::RegisterWorkflow(1)));
    assert_eq!(steps[13].kind, StressKind::SideCommand);
    assert_eq!(steps[14].kind, StressKind::Filler(14));
    assert_eq!(steps[50].kind, StressKind::Filler(50));
    assert_eq!(steps[200].kind, StressKind::RegisterWorkflow(2));
    assert_eq!(steps[250].kind, StressKind::Transition(2, WorkflowState::Running));
    assert_eq!(steps[300].kind, StressKind::Transition(2, WorkflowState::Ready));
    assert_eq!(steps[350].kind, StressKind::Transition(2, WorkflowState::Running));
    assert_eq!(steps[400].kind, StressKind::RegisterWorkflow(3));
    assert_eq!(steps[450].kind, StressKind::Transition(3, WorkflowState::Running));
    assert_eq!(steps[260].kind, StressKind::SideCommand);
    assert!(generate_deterministic_events(0, 5).is_empty());
}

#[test]
fn partitions_rebuild_in_tick_order() {
    let mut m = PartitionManager::new(1);
    m.assign_partition(2, 1);
    m.assign_partition(1, 9);
    assert!(m.is_owned(2));
    assert!(!m.is_owned(1));
    assert!(!m.is_owned(3));
    m.push_to(2, event(10, 5, "late"));
    m.push_to(1, event(11, 1, "early"));
    m.push_to(1, event(10, 7, "dup id"));
    m.push_to(3, event(12, 0, "nowhere"));
    assert_eq!(m.get_partition(1).unwrap().events.len(), 2);
    assert!(m.get_partition(3).is_none());
    let s = m.rebuild_state();
    assert_eq!(s.counter, 2);
    assert_eq!(s.history, vec!["early".to_string(), "late".to_string()]);
    if let Some(p) = m.get_partition_mut(2) {
        p.owner_node = 4;
    }
    assert!(!m.is_owned(2));
}

#[test]
fn sort_is_stable_and_ordered() {
    let v = vec![(3, 1, 0), (1, 2, 1), (3, 0, 2), (1, 2, 0)];
    assert_eq!(sort_keys3(v), vec![(1, 2, 0), (1, 2, 1), (3, 0, 2), (3, 1, 0)]);
    assert!(sort_keys3(vec![]).is_empty());
}

#[test]
fn proof_run_compares_hashes() {
    let events = vec![event(1, 1, "a"), event(2, 2, "b")];
    let hash = |s: &AppState| format!("{}|{}", s.counter, s.history.join(","));
    let ok = run_proof("two events", &events, &events, Some((live_state(&events), 2)), hash);
    assert_eq!(ok.scenario, "two events");
    assert_eq!(ok.live_hash, "2|a,b");
    assert_eq!(ok.replay_hash, "2|a,b");
    assert!(ok.passed);
    let lost = run_proof("lost", &events, &events[..1].to_vec(), None, hash);
    assert_eq!(lost.replay_hash, "1|a");
    assert!(!lost.passed);
}
