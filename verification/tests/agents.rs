use std::cell::RefCell;

use sps_runtime::event::Event;
use sps_runtime::long_term_planner::LongTermPlanner;
use sps_runtime::mobile_agent::MobileControlAgent;
use sps_runtime::ocr_agent::OCRAgent;
use sps_runtime::outbox::{EffectOutbox, EffectRequest, EffectType};
use sps_runtime::planner::{PlannerAgent, WorkflowCommand};
use sps_runtime::runtime_orchestrator::RuntimeOrchestrator;
use sps_runtime::runtime_mode::{disable_replay_mode, enable_replay_mode, RuntimeMode};
use sps_runtime::sandbox::{call_groq_via_curl, call_ollama, command_report, execute_effect, process_pending_effects};
use sps_runtime::self_repair_agent::SelfRepairAgent;
use sps_runtime::seo_agent::SEOAgent;
use sps_runtime::state::{AppState, Goal, GoalStatus, WorkflowState};
use sps_runtime::ui_designer::{critique_prompt_text, design_prompt_text, past_designs};
use sps_runtime::ux_optimizer::UXOptimizerAgent;
use sps_runtime::vision_agent::VisionAgent;

fn only_effect(outbox: &mut EffectOutbox) -> EffectRequest {
    let ids = outbox.pending_ids();
    assert_eq!(ids.len(), 1);
    outbox.complete(ids[0]).unwrap()
}

#[test]
fn mobile_commands() {
    let mut o = EffectOutbox::new();
    MobileControlAgent::open_app("com.example", &mut o);
    let e = only_effect(&mut o);
    assert_eq!(e.payload, "am start -n com.example/.MainActivity 2>/dev/null || echo 'FAILED'");
    assert_eq!((e.tick, e.effect_type), (0, EffectType::Subprocess));

    MobileControlAgent::input_text("it's", &mut o);
    assert_eq!(only_effect(&mut o).payload, "input text 'it'\\''s' 2>/dev/null || echo 'FAILED'");

    MobileControlAgent::press_key(66, &mut o);
    assert_eq!(only_effect(&mut o).payload, "input keyevent 66 2>/dev/null || echo 'FAILED'");

    MobileControlAgent::screenshot("/sdcard/a.png", &mut o);
    assert_eq!(only_effect(&mut o).payload, "screencap /sdcard/a.png 2>/dev/null || echo 'FAILED'");

    MobileControlAgent::swipe(1, 2, 3, 4, &mut o);
    assert_eq!(only_effect(&mut o).payload, "input swipe 1 2 3 4 2>/dev/null || echo 'FAILED'");

    MobileControlAgent::tap(3000, 0, &mut o);
    assert_eq!(only_effect(&mut o).payload, "input tap 3000 0 2>/dev/null || echo 'FAILED'");

    MobileControlAgent::get_clipboard(&mut o);
    assert_eq!(only_effect(&mut o).payload, "termux-clipboard-get 2>/dev/null || echo 'FAILED'");

    MobileControlAgent::set_clipboard("x", &mut o);
    assert_eq!(only_effect(&mut o).payload, "echo 'x' | termux-clipboard-set 2>/dev/null || echo 'FAILED'");

    MobileControlAgent::notification("T", "M", &mut o);
    assert_eq!(
        only_effect(&mut o).payload,
        "termux-notification --title 'T' --content 'M' 2>/dev/null || echo 'FAILED'"
    );
}

#[test]
fn mobile_gestures_beyond_the_screen_queue_nothing() {
    let mut o = EffectOutbox::new();
    MobileControlAgent::tap(3001, 5, &mut o);
    MobileControlAgent::swipe(0, 0, 0, 3001, &mut o);
    assert_eq!(o.pending_count(), 0);
}

#[test]
fn ocr_command() {
    let mut o = EffectOutbox::new();
    OCRAgent::extract_text("/tmp/p.png", "ara", &mut o);
    assert_eq!(only_effect(&mut o).payload, "tesseract '/tmp/p.png' stdout -l ara 2>/dev/null || echo 'OCR_FAILED'");
}

#[test]
fn vision_request_and_missing_image() {
    let mut o = EffectOutbox::new();
    VisionAgent::analyze_image(None, "what?", &mut o);
    let e = o.complete(0).unwrap();
    assert_eq!(e.payload, "echo 'Image not found'");
    VisionAgent::analyze_image(Some(b"Man".to_vec()), "it's \"red\"?", &mut o);
    assert_eq!(
        only_effect(&mut o).payload,
        "curl -s -X POST http://127.0.0.1:11434/api/generate -H 'Content-Type: application/json' -d '{\"images\":[\"TWFu\"],\"model\":\"moondream:latest\",\"prompt\":\"it'\\''s \\\"red\\\"?\",\"stream\":false}'"
    );
}

#[test]
fn vision_base64_padding() {
    let mut o = EffectOutbox::new();
    VisionAgent::analyze_image(Some(b"Ma".to_vec()), "p", &mut o);
    assert!(only_effect(&mut o).payload.contains("[\"TWE=\"]"));
    VisionAgent::analyze_image(Some(b"M".to_vec()), "p", &mut o);
    assert!(only_effect(&mut o).payload.contains("[\"TQ==\"]"));
    VisionAgent::analyze_image(Some(vec![0xfb, 0xff]), "p", &mut o);
    assert!(only_effect(&mut o).payload.contains("[\"+/8=\"]"));
}

#[test]
fn effects_run_in_id_order() {
    let mut o = EffectOutbox::new();
    o.enqueue(EffectRequest { id: 5, tick: 1, effect_type: EffectType::ApiCall, payload: "b".to_string() });
    o.enqueue(EffectRequest { id: 2, tick: 1, effect_type: EffectType::Subprocess, payload: "a".to_string() });
    o.enqueue(EffectRequest { id: 9, tick: 1, effect_type: EffectType::LlmInference, payload: "c".to_string() });
    let run = |s: &str| format!("ran {}", s);
    let chat = |s: &str| format!("said {}", s);
    let mut mode = RuntimeMode::new();
    enable_replay_mode(&mut mode);
    let replayed = process_pending_effects(&mode, &mut o, |e: &EffectRequest| execute_effect(e, run, chat));
    assert!(replayed.is_empty());
    assert_eq!(o.pending_count(), 3);
    disable_replay_mode(&mut mode);
    let results = process_pending_effects(&mode, &mut o, |e: &EffectRequest| execute_effect(e, run, chat));
    assert_eq!(results, vec!["ran a".to_string(), "API call to b (simulated)".to_string(), "said c".to_string()]);
    assert_eq!(o.pending_count(), 0);
}

#[test]
fn command_reports() {
    assert_eq!(command_report(Ok((true, "out".to_string(), "err".to_string()))), "out");
    assert_eq!(command_report(Ok((false, "out".to_string(), "err".to_string()))), "Error: err");
    assert_eq!(command_report(Err("no sh".to_string())), "Command failed: no sh");
}

#[test]
fn model_calls_pass_the_prompt() {
    assert_eq!(call_ollama("hi", |p: &str| p.to_uppercase()), Ok("HI".to_string()));
    assert_eq!(call_groq_via_curl("yo", |p: &str| format!("{}!", p)), Ok("yo!".to_string()));
}

#[test]
fn single_request_agents_send_their_prompts() {
    let echo = |p: &str| p.to_string();
    assert_eq!(
        SelfRepairAgent::attempt_repair("sum", "print(x)", "NameError", echo),
        "Fix this Python code that has the following error.\nError: NameError\nTask: sum\nCode:\nprint(x)\nOutput only corrected Python code."
    );
    assert_eq!(
        LongTermPlanner::create_plan("learn", echo),
        "Break down this goal into concrete steps as JSON array: [{'step':int,'task':str}]. Goal: learn.\nOutput ONLY JSON."
    );
    let seo = SEOAgent::optimize_seo("<p>x</p>", "rust", echo);
    assert!(seo.starts_with("You are an SEO expert who always achieves 100/100 on Google Lighthouse.\n\nTarget Keywords: rust\n\nHTML Page:\n<p>x</p>\n\nApply these SEO improvements:\n1. "));
    assert!(seo.ends_with("Output the COMPLETE improved HTML code. No explanations."));
    let ux = UXOptimizerAgent::optimize_page("<p>y</p>", echo);
    assert!(ux.starts_with("You are a UX expert with 15 years of experience.\nAnalyze this HTML page and improve its user experience.\n\nPage:\n<p>y</p>\n\nImprovements to apply:\n"));
}

#[test]
fn decompose_reads_the_steps() {
    let mut state = AppState::default();
    state.goals.insert(4, Goal {
        id: 4,
        description: "ship".to_string(),
        status: GoalStatus::Pending,
        priority: 1,
        parent_id: None,
        children: vec![],
        depends_on: vec![],
        created_tick: 0,
        updated_tick: 0,
    });
    let seen = RefCell::new(String::new());
    let chat = |p: &str| {
        *seen.borrow_mut() = p.to_string();
        "[\"a\", \"b\"]".to_string()
    };
    assert_eq!(LongTermPlanner::decompose(4, &state, &chat), Ok(vec!["a".to_string(), "b".to_string()]));
    assert_eq!(*seen.borrow(), "Break down goal: 'ship' into 3-5 concrete steps. Output JSON array of strings.");
    assert_eq!(LongTermPlanner::decompose(5, &state, &chat), Err("Goal not found".to_string()));
    assert!(LongTermPlanner::decompose(4, &state, |_: &str| "not json".to_string()).is_err());
}

#[test]
fn planner_prompt_and_plans() {
    let events: Vec<Event> = (1..=7)
        .map(|i| Event {
            id: i,
            tick: i * 10,
            event_type: "T".to_string(),
            payload: format!("p{}", i),
            parent_id: None,
            vector_clock: String::new(),
        })
        .collect();
    let planner = PlannerAgent::new(7);
    let seen = RefCell::new(String::new());
    let chat = |p: &str| {
        *seen.borrow_mut() = p.to_string();
        "Sure: {\"command\":\"Transition\",\"workflow_id\":12,\"new_state\":\"Running\"}".to_string()
    };
    let plan = planner.think_deep(&events, &chat);
    assert_eq!(
        *seen.borrow(),
        "You are a planning agent...\n- [tick 70] p7\n- [tick 60] p6\n- [tick 50] p5\n- [tick 40] p4\n- [tick 30] p3\n\nSuggest next command."
    );
    match &plan[..] {
        [WorkflowCommand::Transition { workflow_id, new_state }] => {
            assert_eq!(*workflow_id, 12);
            assert_eq!(*new_state, WorkflowState::Running);
        }
        other => panic!("unexpected {:?}", other),
    }
    let plan = planner.think_deep(&events[..1], |_: &str| "{\"command\":\"Register\"}".to_string());
    match &plan[..] {
        [WorkflowCommand::Register(d)] => {
            assert_eq!((d.workflow_id, d.name.as_str(), d.version), (207, "llm_wf_7", 1));
        }
        other => panic!("unexpected {:?}", other),
    }
    let plan = planner.think_deep(&[], |_: &str| "no plan".to_string());
    match &plan[..] {
        [WorkflowCommand::Register(d)] => assert_eq!(d.workflow_id, 207),
        other => panic!("unexpected {:?}", other),
    }
    let plan = planner.plan_from_fields(Some((Some("Transition".to_string()), None, Some("Paused".to_string()))));
    match &plan[..] {
        [WorkflowCommand::Transition { workflow_id, new_state }] => {
            assert_eq!((*workflow_id, *new_state), (207, WorkflowState::Ready));
        }
        other => panic!("unexpected {:?}", other),
    }
    let events = planner.commands_to_events(&vec!["{\"a\":1}".to_string(), "{}".to_string()], 100, 3);
    assert_eq!(events.len(), 2);
    assert_eq!((events[1].id, events[1].tick, events[1].payload.as_str()), (101, 3, "WF:{}"));
    assert_eq!(events[0].event_type, "WorkflowCommand");
}

#[test]
fn lifecycle_chains_the_replies() {
    let prompts = RefCell::new(Vec::new());
    let chat = |p: &str| {
        prompts.borrow_mut().push(p.to_string());
        format!("r{}", prompts.borrow().len() - 1)
    };
    let (html, css, js) = RuntimeOrchestrator::run_project_lifecycle("shop", &chat);
    assert_eq!((html.as_str(), css.as_str(), js.as_str()), ("r6", "r7", "r4"));
    let p = prompts.borrow();
    assert_eq!(p[0], "Analyze this project: shop. Identify features, tech stack, challenges.");
    assert_eq!(p[1], "Create a step-by-step plan to build: shop. Analysis: r0");
    assert_eq!(p[2], "Create COMPLETE HTML for: shop. Plan: r1");
    assert_eq!(p[6], "Improve this HTML for UX: r2");
    assert_eq!(p[7], "Add SEO best practices to this CSS: r3");
}

#[test]
fn ui_designer_requests() {
    let records = vec![
        ("design".to_string(), "<a/>".to_string()),
        ("project".to_string(), "x".to_string()),
        ("design".to_string(), "<b/>".to_string()),
    ];
    assert_eq!(past_designs(&records), "<a/>\n<b/>");
    assert_eq!(past_designs(&vec![]), "");
    let p = design_prompt_text("<a/>", "cafe");
    assert!(p.contains("Past successful designs (for inspiration):\n<a/>\n\nProject: cafe\n\nRequirements:\n"));
    let c = critique_prompt_text("<html/>");
    assert!(c.contains("Design:\n<html/>\n\nOutput ONLY a JSON with: { \"score\": <number>, \"issues\": [<list of problems>], \"improved\": false }"));
}

#[test]
fn vision_request_escapes_control_characters() {
    let mut o = EffectOutbox::new();
    VisionAgent::analyze_image(Some(vec![]), "a\u{1}b\n\\", &mut o);
    assert_eq!(
        only_effect(&mut o).payload,
        "curl -s -X POST http://127.0.0.1:11434/api/generate -H 'Content-Type: application/json' -d '{\"images\":[\"\"],\"model\":\"moondream:latest\",\"prompt\":\"a\\u0001b\\n\\\\\",\"stream\":false}'"
    );
}

