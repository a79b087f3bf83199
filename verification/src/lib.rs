//! Deterministic runtime core of the SPS agent node.

pub mod event;
pub mod journal;
pub mod logical_clock;
pub mod long_term_planner;
pub mod memory;
pub mod memory_graph;
pub mod memory_system;
pub mod meta_agent;
pub mod mobile_agent;
pub mod observability;
pub mod ocr_agent;
pub mod ordered;
pub mod outbox;
pub mod partition;
pub mod peer_discovery;
pub mod planner;
pub mod plugin;
pub mod project_state;
pub mod proving;
pub mod reducer;
pub mod reducer_guard;
pub mod reducer_registry;
pub mod replay;
pub mod replay_mode;
pub mod runtime_guard;
pub mod runtime_mode;
pub mod runtime_orchestrator;
pub mod sandbox;
pub mod scheduler;
pub mod self_repair_agent;
pub mod self_update;
pub mod seo_agent;
pub mod signer;
pub mod site_builder;
pub mod snapshot;
pub mod sort;
pub mod state;
pub mod state_store;
pub mod stress;
pub mod strmap;
pub mod swarm_bus;
pub mod task_graph;
pub mod task_pipeline;
pub mod task_prioritizer;
pub mod telegram_bot;
pub mod text;
pub mod tool_registry;
pub mod ui_designer;
pub mod unified_memory;
pub mod ux_optimizer;
pub mod vector_clock;
pub mod vision_agent;
