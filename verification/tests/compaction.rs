use llmconduit::compaction::{
    apply_compaction, derive_session_id, estimate_tokens, name_session, plan_compaction,
    CompactResponse, CompactionConfig, CompactionPlan,
};
use llmconduit::json::Json;
use llmconduit::models::chat::ChatMessage;

fn msg(role: &str, content: &str) -> ChatMessage {
    ChatMessage {
        role: role.to_string(),
        content: Some(Json::Text(content.to_string())),
        tool_call_id: None,
        name: None,
        reasoning_content: None,
        thinking: None,
        tool_calls: None,
    }
}

#[test]
fn disabled_is_noop() {
    let cfg = CompactionConfig::default();
    let msgs = vec![msg("user", &"x".repeat(10_000))];
    assert_eq!(plan_compaction(&cfg, &msgs, "s", "m"), CompactionPlan::Forward);
}

#[test]
fn under_budget_is_noop() {
    let cfg = CompactionConfig {
        enabled: true,
        endpoint: Some("http://127.0.0.1:1".to_string()),
        max_input_tokens: 100_000,
        ..Default::default()
    };
    let msgs = vec![msg("user", "hello")];
    assert_eq!(plan_compaction(&cfg, &msgs, "s", "m"), CompactionPlan::Forward);
}

#[test]
fn session_id_stable_and_prefix_based() {
    let a = vec![
        msg("system", "sys"),
        msg("user", "first"),
        msg("assistant", "later"),
    ];
    let b = vec![
        msg("system", "sys"),
        msg("user", "first"),
        msg("assistant", "different later"),
    ];
    assert_eq!(derive_session_id(&a), derive_session_id(&b));
}

#[test]
fn session_ids_tell_conversations_apart() {
    let a = vec![msg("system", "sys"), msg("user", "first")];
    let b = vec![msg("system", "sys"), msg("user", "second")];
    assert_ne!(derive_session_id(&a), derive_session_id(&b));
}

#[test]
fn answer_replaces_the_messages_only_if_it_compacted() {
    let shorter = || vec![msg("user", "short")];
    let original = || vec![msg("user", "long"), msg("user", "longer")];
    assert_eq!(
        apply_compaction(
            original(),
            Some(CompactResponse { compacted: true, messages: Some(shorter()) })
        ),
        shorter()
    );
    assert_eq!(
        apply_compaction(
            original(),
            Some(CompactResponse { compacted: false, messages: Some(shorter()) })
        ),
        original()
    );
    assert_eq!(apply_compaction(original(), None), original());
}

#[test]
fn long_conversation_asks_the_compactor() {
    let cfg = CompactionConfig {
        enabled: true,
        mode: "external".to_string(),
        endpoint: Some("http://127.0.0.1:1/".to_string()),
        max_input_tokens: 10,
        ..Default::default()
    };
    let msgs = vec![msg("user", &"x".repeat(1_000))];
    assert!(estimate_tokens(&msgs) > 10);
    match plan_compaction(&cfg, &msgs, "s", "m") {
        CompactionPlan::Ask { url, body, timeout_ms } => {
            assert_eq!(url, "http://127.0.0.1:1/compact");
            assert_eq!(body.get_str("model"), Some("m"));
            assert_eq!(timeout_ms, cfg.timeout_ms);
        }
        other => panic!("expected a question, got {other:?}"),
    }
    let cfg = CompactionConfig { endpoint: None, ..cfg };
    assert_eq!(plan_compaction(&cfg, &msgs, "s", "m"), CompactionPlan::MissingEndpoint);
}

#[test]
fn session_names_have_sixteen_digits() {
    assert_eq!(name_session(0), "sess-0000000000000000");
    assert_eq!(name_session(0xdead_beef), "sess-00000000deadbeef");
    assert_eq!(name_session(u64::MAX), "sess-ffffffffffffffff");
    let name = derive_session_id(&vec![msg("user", "first")]);
    assert_eq!(name.len(), 21);
    assert_ne!(name, derive_session_id(&vec![]));
}

#[test]
fn tokens_are_estimated_from_bytes() {
    assert_eq!(estimate_tokens(&vec![]), 1);
    assert_eq!(estimate_tokens(&vec![msg("user", "x")]), 1);
    assert_eq!(estimate_tokens(&vec![msg("user", &"x".repeat(400))]), 100);
    assert_eq!(estimate_tokens(&vec![msg("user", &"ä".repeat(4))]), 2);
}

#[test]
fn unknown_mode_changes_nothing() {
    let cfg = CompactionConfig {
        enabled: true,
        mode: "builtin".to_string(),
        max_input_tokens: 0,
        ..Default::default()
    };
    let msgs = vec![msg("user", "hello")];
    assert_eq!(plan_compaction(&cfg, &msgs, "s", "m"), CompactionPlan::UnsupportedMode);
}
