use sps_runtime::event::Event;
use sps_runtime::memory::{MemoryGraph, MemoryRecord, MemoryType};
use sps_runtime::memory_graph::{CognitiveMemoryGraph, KnowledgeGraph};
use sps_runtime::memory_system::ShortTermMemory;
use sps_runtime::meta_agent::{Delegation, MetaAgent};
use sps_runtime::observability::Metrics;
use sps_runtime::peer_discovery::{parse_discovery_message, discovery_message, PeerDiscovery};
use sps_runtime::plugin::PluginRegistry;
use sps_runtime::project_state::ProjectState;
use sps_runtime::replay_mode;
use sps_runtime::runtime_guard::RuntimeGuard;
use sps_runtime::runtime_mode;
use sps_runtime::scheduler::{DeterministicScheduler, WorkflowStatus};
use sps_runtime::state::{Goal, GoalStatus};
use sps_runtime::swarm_bus::SwarmBus;
use sps_runtime::task_graph::{TaskGraph, TaskStatus};
use sps_runtime::task_prioritizer::TaskPrioritizer;
use sps_runtime::tool_registry::ToolRegistry;

fn event(id: u64, tick: u64, payload: &str) -> Event {
    Event {
        id,
        tick,
        event_type: "Test".to_string(),
        payload: payload.to_string(),
        parent_id: None,
        vector_clock: String::new(),
    }
}

fn goal(id: u64, priority: u64, created_tick: u64, status: GoalStatus) -> Goal {
    Goal {
        id,
        description: format!("goal {}", id),
        status,
        priority,
        parent_id: None,
        children: vec![],
        depends_on: vec![],
        created_tick,
        updated_tick: created_tick,
    }
}

#[test]
fn plugin_ids_start_at_300_and_list_in_id_order() {
    let mut registry = PluginRegistry::new();
    let a = registry.register("CognitiveAgent".to_string(), "Basic reasoning agent".to_string());
    let b = registry.register("PlannerAgent".to_string(), "LLM-based workflow planner".to_string());
    assert_eq!(a, 300);
    assert_eq!(b, 301);
    let list = registry.list();
    assert_eq!(list.len(), 2);
    assert_eq!(list[0].agent_id, 300);
    assert_eq!(list[0].name, "CognitiveAgent");
    assert_eq!(list[1].description, "LLM-based workflow planner");
}

#[test]
fn discovery_message_round_trip() {
    let m = discovery_message(42, "10.0.0.7");
    assert_eq!(m, "SPS_DISCOVER:42:10.0.0.7");
    assert_eq!(parse_discovery_message(&m), Some((42, "10.0.0.7".to_string())));
}

#[test]
fn discovery_address_is_cut_at_its_colon() {
    assert_eq!(parse_discovery_message("SPS_DISCOVER:5:host:9000"), Some((5, "host".to_string())));
}

#[test]
fn discovery_rejects_malformed_messages() {
    assert_eq!(parse_discovery_message("HELLO:1:x"), None);
    assert_eq!(parse_discovery_message("SPS_DISCOVER:12"), None);
    assert_eq!(parse_discovery_message("SPS_DISCOVER:abc:host"), None);
    assert_eq!(parse_discovery_message("SPS_DISCOVER:-1:host"), None);
    assert_eq!(parse_discovery_message("SPS_DISCOVER:18446744073709551616:host"), None);
    assert_eq!(parse_discovery_message("SPS_DISCOVER:+7:host"), Some((7, "host".to_string())));
    assert_eq!(parse_discovery_message("SPS_DISCOVER:18446744073709551615:"), Some((u64::MAX, String::new())));
}

#[test]
fn peer_table_add_remove_and_list() {
    let mut d = PeerDiscovery::new(1, "10.0.0.1");
    d.add_peer(9, "10.0.0.9");
    d.add_peer(3, "10.0.0.3");
    d.add_peer(9, "10.0.0.99");
    assert_eq!(d.list_peers(), vec![(3, "10.0.0.3".to_string()), (9, "10.0.0.99".to_string())]);
    d.remove_peer(3);
    assert_eq!(d.list_peers(), vec![(9, "10.0.0.99".to_string())]);
    assert_eq!(d.announcement(), "SPS_DISCOVER:1:10.0.0.1");
}

#[test]
fn project_state_starts_empty() {
    let p = ProjectState::new();
    assert!(p.files.is_empty());
    assert!(p.execution_history.is_empty());
    assert!(p.diagnostics.is_empty());
    assert!(p.task_graph.all_completed());
}

#[test]
fn replay_switches() {
    let mut m = replay_mode::ReplayMode::new();
    assert!(!replay_mode::is_replay_mode(&m));
    replay_mode::enable_replay_mode(&mut m);
    assert!(replay_mode::is_replay_mode(&m));
    replay_mode::disable_replay_mode(&mut m);
    assert!(!replay_mode::is_replay_mode(&m));
    let mut r = runtime_mode::RuntimeMode::new();
    runtime_mode::enable_replay_mode(&mut r);
    assert!(runtime_mode::is_replay_mode(&r));
    runtime_mode::disable_replay_mode(&mut r);
    assert!(!runtime_mode::is_replay_mode(&r));
}

#[test]
fn runtime_guard_reports_unreadable_log() {
    assert_eq!(RuntimeGuard::verify(Ok(())), Ok(()));
    assert_eq!(
        RuntimeGuard::verify(Err("permission denied".to_string())),
        Err("EventLog not accessible: permission denied".to_string())
    );
}

#[test]
fn metrics_start_at_zero() {
    let m = Metrics::new();
    assert_eq!((m.events_processed, m.api_requests, m.replays_count), (0, 0, 0));
}

#[test]
fn swarm_bus_send_fetch_and_reply() {
    let mut bus = SwarmBus::new();
    assert_eq!(bus.send("coder", "build it"), Ok("Message sent to coder".to_string()));
    bus.send("coder", "and test it").unwrap();
    bus.send("voice", "hello").unwrap();
    let mut agents = bus.list_agents();
    agents.sort();
    assert_eq!(agents, vec!["coder".to_string(), "voice".to_string()]);
    assert_eq!(bus.fetch_messages("coder"), vec!["build it".to_string(), "and test it".to_string()]);
    assert!(bus.fetch_messages("coder").is_empty());
    assert_eq!(bus.fetch_messages("voice"), vec!["hello".to_string()]);
    let id = bus.send_request("repair", "fix");
    let queued = bus.fetch_messages("repair");
    assert_eq!(queued, vec![format!("{}||fix", id)]);
    assert_eq!(bus.poll_reply(&id), None);
    assert_eq!(bus.reply(&id, "done"), Ok(()));
    assert_eq!(bus.poll_reply(&id), Some("done".to_string()));
}

#[test]
fn swarm_request_ids_are_fresh() {
    let mut bus = SwarmBus::new();
    let a = bus.send_request("x", "p");
    let b = bus.send_request("x", "p");
    assert_ne!(a, b);
    assert_eq!(a.len(), 36);
}

#[test]
fn tool_registry_specs() {
    let repair = ToolRegistry::get_spec("repair").unwrap();
    assert_eq!(repair.name, "repair");
    assert!(repair.allowed);
    assert_eq!(repair.timeout_secs, 60);
    assert!(repair.requires_sandbox);
    assert_eq!(repair.max_retries, 3);
    let mobile = ToolRegistry::get_spec("mobile").unwrap();
    assert_eq!((mobile.timeout_secs, mobile.requires_sandbox, mobile.max_retries), (15, false, 0));
    assert!(ToolRegistry::get_spec("brain").is_none());
    assert!(ToolRegistry::is_allowed("vision"));
    assert!(!ToolRegistry::is_allowed("brain"));
}

#[test]
fn meta_agent_routing_and_delegation() {
    assert_eq!(MetaAgent::best_agent_for("tap"), "mobile");
    assert_eq!(MetaAgent::best_agent_for("send_email"), "gmail");
    assert_eq!(MetaAgent::best_agent_for("dance"), "brain");
    assert_eq!(MetaAgent::delegation_target("speak"), Ok("voice"));
    assert_eq!(
        MetaAgent::delegation_target("think"),
        Err("❌ Agent 'brain' is currently disabled.".to_string())
    );
    match MetaAgent::delegation_step("voice", 2, Ok("said".to_string())) {
        Delegation::Finish(r) => assert_eq!(r, "✅ voice completed (attempt 2): said"),
        other => panic!("unexpected {:?}", other),
    }
    match MetaAgent::delegation_step("voice", 2, Err("timeout".to_string())) {
        Delegation::RetryAfter(ms) => assert_eq!(ms, 400),
        other => panic!("unexpected {:?}", other),
    }
    match MetaAgent::delegation_step("voice", 3, Err("timeout".to_string())) {
        Delegation::Finish(r) => assert_eq!(r, "❌ voice failed after 3 attempts: timeout"),
        other => panic!("unexpected {:?}", other),
    }
}

#[test]
fn meta_agent_next_goal_and_report() {
    let goals = vec![
        goal(1, 5, 10, GoalStatus::Pending),
        goal(2, 2, 30, GoalStatus::Pending),
        goal(3, 2, 20, GoalStatus::Completed),
        goal(4, 2, 25, GoalStatus::Pending),
    ];
    assert_eq!(MetaAgent::next_goal(&goals).map(|g| g.id), Some(1));
    let tied = vec![
        goal(5, 2, 30, GoalStatus::Pending),
        goal(6, 7, 40, GoalStatus::Pending),
        goal(7, 7, 35, GoalStatus::Pending),
        goal(8, 9, 1, GoalStatus::Failed),
    ];
    assert_eq!(MetaAgent::next_goal(&tied).map(|g| g.id), Some(7));
    assert!(MetaAgent::next_goal(&[goal(9, 1, 1, GoalStatus::Active)]).is_none());
    assert_eq!(MetaAgent::analyze_performance(&vec![], "x"), "No active agents.");
    assert_eq!(
        MetaAgent::analyze_performance(&vec!["voice".to_string(), "coder".to_string()], "CPU: 1.0%"),
        "Active agents (2): voice, coder. System: CPU: 1.0%"
    );
}

#[test]
fn prioritizer_picks_and_orders() {
    let goals = vec![
        goal(1, 1, 10, GoalStatus::Pending),
        goal(2, 9, 30, GoalStatus::Pending),
        goal(3, 9, 20, GoalStatus::Pending),
        goal(4, 99, 1, GoalStatus::Completed),
    ];
    assert_eq!(TaskPrioritizer::pick_highest_priority(&goals).map(|g| g.id), Some(3));
    let mut v = goals.clone();
    TaskPrioritizer::order(&mut v);
    let ids: Vec<u64> = v.iter().map(|g| g.id).collect();
    assert_eq!(ids, vec![4, 3, 2, 1]);
    assert!(TaskPrioritizer::pick_highest_priority(&[]).is_none());
}

#[test]
fn scheduler_orders_ready_tasks() {
    let mut s = DeterministicScheduler::new();
    s.register_task(10, 2, 5);
    s.register_task(11, 1, 9);
    s.register_task(12, 1, 3);
    s.register_task(13, 0, 0);
    assert!(s.next_task().is_none());
    s.mark_ready(10);
    s.mark_ready(11);
    s.mark_ready(12);
    s.mark_ready(99);
    assert_eq!(s.total_tasks(), 4);
    let next = s.next_task().unwrap();
    assert_eq!((next.workflow_id, next.status), (12, WorkflowStatus::Ready));
    let ids: Vec<u64> = s.pending_ready_tasks().iter().map(|t| t.workflow_id).collect();
    assert_eq!(ids, vec![12, 11, 10]);
}

#[test]
fn task_graph_runs_tasks_after_their_dependencies() {
    let mut g = TaskGraph::new();
    let a = g.add_task("design".to_string(), "ui".to_string(), vec![]);
    let b = g.add_task("build".to_string(), "coder".to_string(), vec![a]);
    assert_eq!((a, b), (1, 2));
    assert_eq!(g.get_next_ready(), Some(a));
    g.mark_running(a);
    assert_eq!(g.get_next_ready(), None);
    g.mark_completed(a, "ok".to_string());
    assert_eq!(g.get_next_ready(), Some(b));
    g.mark_failed(b);
    assert_eq!(g.get_next_ready(), None);
    g.mark_repaired(b);
    assert!(!g.all_completed());
    g.mark_completed(b, "done".to_string());
    assert!(g.all_completed());
    assert_eq!(TaskStatus::Completed, TaskStatus::Completed);
}

#[test]
fn memory_graph_store_then_get() {
    let mut m = MemoryGraph::new();
    m.store(MemoryRecord { memory_id: 7, memory_type: MemoryType::Semantic, content: "fact".to_string(), created_tick: 3 });
    m.store(MemoryRecord { memory_id: 8, memory_type: MemoryType::Working, content: "note".to_string(), created_tick: 4 });
    let r = m.get(7);
    assert_eq!((r.memory_id, r.content.as_str(), r.created_tick), (7, "fact", 3));
    assert_eq!(m.total_memories(), 2);
}

#[test]
fn memory_graph_keeps_a_recorded_memory() {
    let mut m = MemoryGraph::new();
    m.store(MemoryRecord { memory_id: 7, memory_type: MemoryType::Semantic, content: "fact".to_string(), created_tick: 3 });
    m.store(MemoryRecord { memory_id: 7, memory_type: MemoryType::Working, content: "other".to_string(), created_tick: 9 });
    let r = m.get(7);
    assert_eq!((r.memory_type, r.content.as_str(), r.created_tick), (MemoryType::Semantic, "fact", 3));
    assert_eq!(m.total_memories(), 1);
}

#[test]
fn knowledge_graph_query_lists_neighbours_in_edge_order() {
    let mut k = KnowledgeGraph::new();
    k.add_node("a", vec!["x".to_string()]);
    k.add_edge("a", "b", "knows");
    k.add_edge("c", "a", "likes");
    k.add_edge("b", "c", "sees");
    assert_eq!(k.query("a"), vec![("b".to_string(), "knows".to_string()), ("c".to_string(), "likes".to_string())]);
    assert!(k.query("z").is_empty());
}

#[test]
fn cognitive_graph_relations_and_episodes() {
    let mut g = CognitiveMemoryGraph::new();
    g.add_semantic_relation("sky", "is", "blue");
    g.add_semantic_relation("sky", "has", "clouds");
    for i in 0..1005 {
        g.record_episode(&format!("e{}", i));
    }
    assert_eq!(g.recall_episodes(3), vec!["e1004".to_string(), "e1003".to_string(), "e1002".to_string()]);
    assert_eq!(g.recall_episodes(5000).len(), 1000);
    assert_eq!(g.recall_episodes(5000).last().unwrap(), "e5");
}

#[test]
fn short_term_memory_keeps_the_latest_messages() {
    let mut m = ShortTermMemory::new(2);
    m.add("user", "hi");
    m.add("bot", "hello");
    m.add("user", "bye");
    assert_eq!(m.context(), vec![("bot".to_string(), "hello".to_string()), ("user".to_string(), "bye".to_string())]);
    assert_eq!(m.formatted(), "bot: hello\nuser: bye");
}

#[test]
fn short_term_memory_of_capacity_zero_keeps_the_last_message() {
    let mut m = ShortTermMemory::new(0);
    m.add("a", "1");
    m.add("b", "2");
    assert_eq!(m.formatted(), "b: 2");
}

#[test]
fn events_used_in_registries_are_plain_values() {
    let e = event(1, 2, "p");
    assert_eq!(e.clone().payload, "p");
}

#[test]
fn task_ids_are_handed_out_in_turn() {
    let mut g = TaskGraph::new();
    let ids: Vec<u64> = (0..4).map(|i| g.add_task(format!("t{}", i), "a".to_string(), vec![])).collect();
    assert_eq!(ids, vec![1, 2, 3, 4]);
}

#[test]
fn swarm_bus_keeps_each_mailbox_in_send_order() {
    let mut bus = SwarmBus::new();
    bus.send("a", "1").unwrap();
    bus.send("b", "x").unwrap();
    bus.send("a", "2").unwrap();
    bus.send("a", "3").unwrap();
    assert_eq!(bus.fetch_messages("a"), vec!["1".to_string(), "2".to_string(), "3".to_string()]);
    assert_eq!(bus.fetch_messages("b"), vec!["x".to_string()]);
}
