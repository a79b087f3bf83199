use std::cell::RefCell;

use sps_runtime::memory_system::ShortTermMemory;
use sps_runtime::self_update::{latest_version, needs_update};
use sps_runtime::signer::{EventSigner, SignedEvent};
use sps_runtime::site_builder::{
    council_improvements,
    brand_dna_from_reply, byte_prefix_str, improve_css_request, improve_html_request, strip_html_boilerplate, BrandDNA,
    SiteBuilderAgent, SiteBundle,
};
use sps_runtime::snapshot::{incremental_file_name, latest_incremental, recover_runtime, IncrementalSnapshot, Snapshot};
use sps_runtime::state::AppState;
use sps_runtime::telegram_bot::{start_text, status_text};
use sps_runtime::text::{parse_u64, trim_string};
use sps_runtime::unified_memory::retrieve_context;

fn dna() -> BrandDNA {
    BrandDNA {
        brand_name: "Nova".to_string(),
        tagline: "Shine".to_string(),
        personality: "bold".to_string(),
        color_palette: "teal".to_string(),
        typography: "serif".to_string(),
        animation_mood: "calm".to_string(),
        layout_style: "grid".to_string(),
        unique_hook: "stars".to_string(),
    }
}

#[test]
fn strip_keeps_the_trimmed_body() {
    assert_eq!(strip_html_boilerplate("<html><body class=\"x\">\n  <h1>Hi</h1>\n</body></html>"), "<h1>Hi</h1>");
    assert_eq!(strip_html_boilerplate("<section>no body</section>"), "<section>no body</section>");
    assert_eq!(strip_html_boilerplate("<body>open"), "open");
    assert_eq!(strip_html_boilerplate("x <body"), "<body");
    assert_eq!(strip_html_boilerplate("<body> a </body> b </body>"), "a </body> b");
}

#[test]
fn assemble_puts_the_stripped_sections_in_the_page() {
    let page = SiteBuilderAgent::assemble_html("<body>N</body>", "F", "S", "<body>\tT </body>");
    assert!(page.starts_with("<!DOCTYPE html>\n<html lang=\"en\">\n<head>\n<meta charset=\"UTF-8\">"));
    assert!(page.contains("<body>\n\nN\n\nF\n\nS\n\nT\n\n<script src=\"script.js\"></script>\n</body>\n</html>"));
}

#[test]
fn brand_is_read_from_the_reply() {
    let whole = brand_dna_from_reply("{\"brand_name\":\"Nova\",\"tagline\":\"Shine\"}").unwrap();
    assert_eq!((whole.brand_name.as_str(), whole.tagline.as_str(), whole.typography.as_str()), ("Nova", "Shine", ""));
    let wrapped = brand_dna_from_reply("Here: {\"brand_name\":\"Ray\",\"unique_hook\":7} done").unwrap();
    assert_eq!((wrapped.brand_name.as_str(), wrapped.unique_hook.as_str()), ("Ray", ""));
    let nothing = brand_dna_from_reply("no json at all").unwrap();
    assert_eq!(nothing.brand_name, "");
    assert!(brand_dna_from_reply("} backwards {").is_none());
}

#[test]
fn site_requests_carry_the_brand() {
    let echo = |p: &str| p.to_string();
    let hero = SiteBuilderAgent::generate_nav_hero("cafe", &dna(), echo);
    assert!(hero.starts_with("Generate ONLY NAVBAR + HERO SECTION.\n\nPROJECT:\ncafe\n\nBRAND:\nNova\n\nTAGLINE:\nShine\n\nPERSONALITY:\nbold\n\nUNIQUE HOOK:\nstars\n\nREQUIREMENTS:\n"));
    let footer = SiteBuilderAgent::generate_footer("cafe", &dna(), echo);
    assert!(footer.contains("BRAND:\nNova\n"));
    let anim = SiteBuilderAgent::generate_animations_css(&dna(), echo);
    assert!(anim.starts_with("Generate COMPLETE animations.css.\n\nMOOD:\ncalm\n"));
    let util = SiteBuilderAgent::generate_utilities_css(&dna(), echo);
    assert!(util.contains("PALETTE:\nteal\n"));
    let long_page = "é".repeat(3000);
    let css = SiteBuilderAgent::generate_main_css(&long_page, &dna(), echo);
    assert!(css.contains(&format!("HTML:\n{}\n\nREQUIREMENTS:", "é".repeat(2500))));
    let js = SiteBuilderAgent::generate_advanced_js("<p/>", &dna(), echo);
    assert!(js.contains("PERSONALITY:\nbold\n\nHOOK:\nstars\n") && js.contains("HTML:\n<p/>\n\nOUTPUT ONLY JAVASCRIPT."));
    let brand = SiteBuilderAgent::generate_brand_dna("tea shop", |_: &str| "{\"brand_name\":\"Leaf\"}".to_string());
    assert_eq!(brand.unwrap().brand_name, "Leaf");
}

#[test]
fn byte_prefix_cuts_at_the_byte_count() {
    assert_eq!(byte_prefix_str("abcdef", 3), "abc");
    assert_eq!(byte_prefix_str("ab", 3), "ab");
    assert_eq!(byte_prefix_str("éé", 2), "é");
}

#[test]
fn council_and_polish_requests() {
    let prompts = RefCell::new(Vec::new());
    let chat = |p: &str| {
        prompts.borrow_mut().push(p.to_string());
        "{\"score\": 7}".to_string()
    };
    let replies = SiteBuilderAgent::design_council_critique("<h1/>", "h1{}", &dna(), &chat);
    assert_eq!(replies.len(), 3);
    let p = prompts.borrow();
    assert!(p[0].starts_with("You are a UX Director.\n\nRate this design from 1-10.\n\nHTML:\n<h1/>\n\nCSS:\nh1{}\n\nOUTPUT JSON:\n{"));
    assert_eq!(p[1], "You are a Motion Designer.\n\nAnimation mood:\ncalm\n\nRate this design.\n\nOUTPUT JSON.");
    assert_eq!(p[2], "You are a Brand Strategist.\n\nPersonality:\nbold\n\nHook:\nstars\n\nRate consistency and uniqueness.\n\nOUTPUT JSON.");
    let improvements = vec!["more contrast".to_string(), "bigger".to_string()];
    let h = improve_html_request(&improvements, "<p/>", "p{}");
    assert_eq!(h, "Improve this design.\n\nIMPROVEMENTS:\nmore contrast\nbigger\n\nHTML:\n<p/>\n\nCSS:\np{}\n\nOUTPUT COMPLETE IMPROVED HTML.");
    let c = improve_css_request(&improvements, "p{}");
    assert_eq!(c, "Improve this CSS.\n\nIMPROVEMENTS:\nmore contrast\nbigger\n\nCSS:\np{}\n\nOUTPUT COMPLETE IMPROVED CSS.");
    let bundle = SiteBundle {
        html: "<p/>".to_string(),
        css: "p{}".to_string(),
        animations_css: String::new(),
        utilities_css: String::new(),
        js: String::new(),
    };
    let (fh, fc) = SiteBuilderAgent::final_consistency_pass(&bundle, |p: &str| p.len().to_string());
    assert_eq!(fh.parse::<usize>().unwrap() > 0, true);
    assert_ne!(fh, fc);
}

#[test]
fn signed_events_verify_and_tampering_fails() {
    let signer = EventSigner::new();
    let signed = signer.sign("{\"id\":1}".to_string());
    assert_eq!(signed.signature.len(), 64);
    assert_eq!(signed.public_key, signer.verifying_key_bytes());
    assert!(EventSigner::verify(&signed));
    let tampered = SignedEvent { event_json: "{\"id\":2}".to_string(), ..signed };
    assert!(!EventSigner::verify(&tampered));
    let short_key = SignedEvent { event_json: "x".to_string(), signature: vec![0; 64], public_key: vec![1, 2, 3] };
    assert!(!EventSigner::verify(&short_key));
    let short_sig = SignedEvent { event_json: "x".to_string(), signature: vec![0; 10], public_key: signer.verifying_key_bytes() };
    assert!(!EventSigner::verify(&short_sig));
}

#[test]
fn two_signers_have_different_keys() {
    assert_ne!(EventSigner::new().verifying_key_bytes(), EventSigner::new().verifying_key_bytes());
}

#[test]
fn signatures_are_deterministic() {
    let signer = EventSigner::new();
    assert_eq!(signer.sign("e".to_string()).signature, signer.sign("e".to_string()).signature);
}

#[test]
fn snapshot_file_names_and_latest_choice() {
    assert_eq!(incremental_file_name(3, 17), "snapshots_delta/inc_3_17.json");
    let inc = |base: u64, new: u64, delta: &str| IncrementalSnapshot {
        base_tick: base,
        new_tick: new,
        delta_events: 1,
        state_delta: delta.to_string(),
        state_hash: String::new(),
    };
    let candidates = vec![inc(1, 5, "a"), inc(2, 9, "b"), inc(1, 8, "c"), inc(1, 8, "d"), inc(1, 2, "e")];
    assert_eq!(latest_incremental(&candidates, 1).unwrap().state_delta, "c");
    assert_eq!(latest_incremental(&candidates, 2).unwrap().state_delta, "b");
    assert!(latest_incremental(&candidates, 7).is_none());
}

#[test]
fn recovery_checks_the_snapshot() {
    let snap = Snapshot { tick: 1, state: AppState::default(), state_hash: "abc".to_string(), event_count: 0 };
    assert_eq!(recover_runtime(&snap, false, AppState::default(), "abc").err(), Some("SNAPSHOT INTEGRITY FAILURE".to_string()));
    assert_eq!(recover_runtime(&snap, true, AppState::default(), "abd").err(), Some("RECOVERY DIVERGENCE DETECTED".to_string()));
    assert_eq!(recover_runtime(&snap, true, AppState::default(), "abc").unwrap().counter, 0);
}

#[test]
fn update_headers() {
    let headers = "HTTP/1.1 200 OK\r\nContent-Type: text/plain\r\nX-Version:  2.4.1 \r\nx-version: 9\r\n";
    assert_eq!(latest_version(headers), "2.4.1");
    assert_eq!(latest_version("x-version: 1:2\n"), "1");
    assert_eq!(latest_version("HTTP/1.1 404\r\n"), "unknown");
    assert_eq!(latest_version(""), "unknown");
    assert!(!needs_update("2.4.1", headers));
    assert!(needs_update("2.4.0", headers));
}

#[test]
fn parse_and_trim() {
    assert_eq!(parse_u64("0"), Some(0));
    assert_eq!(parse_u64("+12"), Some(12));
    assert_eq!(parse_u64(""), None);
    assert_eq!(parse_u64("+"), None);
    assert_eq!(parse_u64("1 2"), None);
    assert_eq!(parse_u64("18446744073709551615"), Some(u64::MAX));
    assert_eq!(parse_u64("18446744073709551616"), None);
    assert_eq!(trim_string("\u{3000} a b\t\n"), "a b");
    assert_eq!(trim_string("   "), "");
}

#[test]
fn bot_texts() {
    let mut state = AppState::default();
    state.counter = 3;
    state.history.push("x".to_string());
    assert_eq!(status_text(&state), "Counter: 3\nEvents: 1");
    assert_eq!(start_text(), "🤖 SPS Embryo ready. Use /status to see system state.");
}

#[test]
fn unified_context_text() {
    let mut stm = ShortTermMemory::new(5);
    stm.add("user", "hi");
    let ctx = retrieve_context(&stm, &vec![("design".to_string(), "<a/>".to_string()), ("note".to_string(), "n".to_string())]);
    assert_eq!(ctx, "STM:\nuser: hi\n\nLTM:\n[design] <a/>\n[note] n");
    assert_eq!(retrieve_context(&ShortTermMemory::new(1), &vec![]), "STM:\n\n\nLTM:\n");
}

#[test]
fn council_improvements_are_read_in_order() {
    let replies = vec![
        "Panel: {\"score\": 7.5, \"improvements\": [\"contrast\", 3, \"spacing\"]} end".to_string(),
        "no json here".to_string(),
        "{\"score\": 9, \"improvements\": \"none\"}".to_string(),
        "{\"improvements\": [\"motion\"]}".to_string(),
    ];
    assert_eq!(
        council_improvements(&replies),
        vec!["contrast".to_string(), "spacing".to_string(), "motion".to_string()]
    );
    assert!(council_improvements(&vec![]).is_empty());
}
