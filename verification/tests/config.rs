use llmconduit::clock::TimeSpan;
use llmconduit::collections::TextMap;
use llmconduit::config::env::{
    apply_env_overrides, parse_bool, parse_signed, parse_unsigned,
};
use llmconduit::config::files::{default_path_in, writable_parent, writable_place};
use llmconduit::config::glob::{
    compile_model_glob, glob_to_regex, is_glob_pattern, translate_glob,
};
use llmconduit::config::merge::merge_json_maps;
use llmconduit::config::policies::reasoning_effort_policy_of;
use llmconduit::config::persisted::{reject_removed_global_knobs, PersistedConfig};
use llmconduit::config::price::{retain_finite_prices, ModelPrice};
use llmconduit::config::profile::{
    shorthand_chat_kwargs, CompiledProfile, ImageAnalysisConfig, ModelProfile,
    OrderedModelProfiles, PersistedModelProfile, PersistedProfileFallback, ResidualImagePolicy,
};
use llmconduit::config::reasoning::ReasoningConfig;
use llmconduit::config::roles::{
    Action, RoleRule, RoleRuleSet, RolesConfig, When,
};
use llmconduit::config::routing::select_route;
use llmconduit::config::upstream::{upstreams_with_urls, PersistedUpstream};
use llmconduit::config::{
    dir_of_parent, is_toml_extension, list_dir, path_is_toml, CapabilitiesConfig, Config, SimpleCap,
};
use llmconduit::duplicate::Duplicate;
use llmconduit::json::{find_entry, parse_json, render_json, Json, JsonMap, JsonNumber};

fn json(text: &str) -> Json {
    parse_json(text).expect("JSON")
}

fn object(text: &str) -> JsonMap {
    match json(text) {
        Json::Object(entries) => entries,
        other => panic!("not an object: {other:?}"),
    }
}

fn text(entries: &JsonMap) -> String {
    render_json(&Json::Object(entries.duplicate()))
}

fn number(text: &str) -> Option<JsonNumber> {
    match json(text) {
        Json::Num(number) => Some(number),
        other => panic!("not a number: {other:?}"),
    }
}

fn no_env() -> TextMap<String> {
    TextMap::new()
}

fn env(entries: &[(&str, &str)]) -> TextMap<String> {
    let mut map = TextMap::new();
    for (name, value) in entries {
        map.insert(name.to_string(), value.to_string());
    }
    map
}

fn from_persisted(config: &PersistedConfig) -> Result<Config, String> {
    Config::from_persisted(config, Ok(config.bind_addr.clone()), &no_env())
}

fn upstream(name: &str, url: &str) -> PersistedUpstream {
    PersistedUpstream {
        name: name.to_string(),
        url: url.to_string(),
        api_key: None,
        api_key_env: None,
        chat_kwargs: Vec::new(),
        request_log_path: None,
        upstream_model: None,
        fallback_upstreams: None,
    }
}

fn backend_upstreams() -> Vec<PersistedUpstream> {
    vec![upstream("backend", "http://h/v1")]
}

fn profile(upstream: &str) -> PersistedModelProfile {
    PersistedModelProfile {
        upstream: Some(upstream.to_string()),
        ..PersistedModelProfile::default()
    }
}

fn profiles(entries: Vec<(&str, PersistedModelProfile)>) -> OrderedModelProfiles {
    OrderedModelProfiles(
        entries
            .into_iter()
            .map(|(name, profile)| (name.to_string(), profile))
            .collect(),
    )
}

fn templates(entries: Vec<(&str, PersistedModelProfile)>) -> TextMap<PersistedModelProfile> {
    let mut map = TextMap::new();
    for (name, profile) in entries {
        map.insert(name.to_string(), profile);
    }
    map
}

fn fragments(entries: &[(&str, &str)]) -> TextMap<Json> {
    let mut map = TextMap::new();
    for (level, fragment) in entries {
        map.insert(level.to_string(), json(fragment));
    }
    map
}

/// The keyword arguments that a model of an upstream gets: those of its own policy, or of the first
/// pattern that matches it, over those for every model.
fn leaf_chat_kwargs(config: &Config, backend_model: &str) -> String {
    let mut kwargs = config.global_upstream_chat_kwargs().duplicate();
    let exact = config.upstream_chat_kwargs_policies();
    let globs = config.upstream_chat_kwargs_policy_globs();
    if let Some(policy) = exact.get(backend_model) {
        merge_json_maps(&mut kwargs, &policy.kwargs);
    } else if let Some((_, policy)) = globs.iter().find(|(glob, _)| glob.is_match(backend_model)) {
        merge_json_maps(&mut kwargs, &policy.kwargs);
    }
    text(&kwargs)
}

/// The template family that a model of an upstream gets.
fn leaf_family(config: &Config, backend_model: &str) -> Option<String> {
    let exact = config.template_family_policies();
    let globs = config.template_family_policy_globs();
    if let Some(family) = exact.get(backend_model) {
        return Some(family.clone());
    }
    if let Some((_, family)) = globs.iter().find(|(glob, _)| glob.is_match(backend_model)) {
        return Some(family.clone());
    }
    config.global_template_family()
}

fn rules(rule: Option<RoleRule>) -> RoleRuleSet {
    RoleRuleSet { rules: rule.into_iter().collect() }
}

fn accept() -> RoleRule {
    RoleRule {
        when: None,
        action: Action::Accept,
        target_role: None,
        tag: None,
        tag_attributes: TextMap::new(),
    }
}

fn roles_config(merge_adjacent: &[&str], roles: &[&str]) -> RolesConfig {
    let mut map = TextMap::new();
    for role in roles {
        map.insert(role.to_string(), rules(Some(accept())));
    }
    RolesConfig {
        merge_adjacent: merge_adjacent.iter().map(|role| role.to_string()).collect(),
        rules: map,
    }
}

#[test]
fn merge_adjacent_rejects_non_content_role() {
    let roles = roles_config(&["tool"], &["tool"]);
    let err = roles
        .validate()
        .expect_err("tool is not a content-only role");
    assert!(
        err.contains("merge_adjacent"),
        "expected a merge_adjacent guard error, got: {err}"
    );
}

#[test]
fn merge_adjacent_accepts_content_only_roles() {
    let roles = roles_config(
        &["system", "developer", "user"],
        &["system", "developer", "user"],
    );
    roles.validate().expect("content-only roles may be merged");
}

#[test]
fn rules_for_falls_back_to_the_rules_for_any_role() {
    let mut roles = roles_config(&[], &["user"]);
    assert!(roles.rules_for("user").is_some());
    assert!(roles.rules_for("tool").is_none());
    roles.rules.insert("*".to_string(), rules(None));
    assert_eq!(roles.rules_for("tool").map(|rules| rules.len()), Some(0));
    assert_eq!(roles.rules_for("user").map(|rules| rules.len()), Some(1));
}

#[test]
fn rules_that_make_no_sense_are_rejected() {
    let with = |rule: RoleRule| {
        let mut roles = roles_config(&[], &[]);
        roles.rules.insert("user".to_string(), rules(Some(rule)));
        roles.validate()
    };
    assert!(with(accept()).is_ok());
    assert!(with(RoleRule { action: Action::Rewrite, ..accept() }).is_err());
    assert!(with(RoleRule {
        action: Action::Rewrite,
        target_role: Some("system".to_string()),
        when: Some(When::Leading),
        ..accept()
    })
    .is_ok());
    assert!(with(RoleRule {
        action: Action::Rewrite,
        target_role: Some("user".to_string()),
        tag: Some("no spaces".to_string()),
        ..accept()
    })
    .is_err());
}

#[test]
fn resolves_reasoning_effort_policy_from_profile_chain() {
    let persisted = PersistedConfig {
        upstreams: backend_upstreams(),
        model_profile_templates: templates(vec![(
            "glm-effort",
            PersistedModelProfile {
                reasoning_effort_default: Some("max".to_string()),
                reasoning_effort_map: fragments(&[
                    ("high", r#"{ "chat_template_kwargs": { "reasoning_effort": "high" } }"#),
                    ("max", r#"{ "chat_template_kwargs": { "reasoning_effort": "max" } }"#),
                    ("none", r#"{ "chat_template_kwargs": { "enable_thinking": false } }"#),
                ]),
                ..PersistedModelProfile::default()
            },
        )]),
        model_profiles: profiles(vec![(
            "GLM-5.2-NVFP4-MTP",
            PersistedModelProfile {
                extends: vec!["glm-effort".to_string()],
                reasoning_effort_map: fragments(&[(
                    "xhigh",
                    r#"{ "chat_template_kwargs": { "reasoning_effort": "max" } }"#,
                )]),
                ..profile("backend")
            },
        )]),
        ..PersistedConfig::default()
    };
    let config = from_persisted(&persisted).expect("config");
    let policies = config.reasoning_effort_policies();
    let policy = policies
        .get("GLM-5.2-NVFP4-MTP")
        .expect("GLM policy present");
    assert_eq!(policy.default.as_deref(), Some("max"));
    let kwargs = |level: &str| policy.map.get(level).and_then(|f| f.get("chat_template_kwargs"));
    assert_eq!(
        kwargs("high").and_then(|k| k.get_str("reasoning_effort")),
        Some("high")
    );
    assert_eq!(
        kwargs("xhigh").and_then(|k| k.get_str("reasoning_effort")),
        Some("max")
    );
    assert_eq!(
        kwargs("none").and_then(|k| k.get("enable_thinking")),
        Some(&Json::Bool(false))
    );
    assert!(!policies.contains_key("other"));
}

fn typed_reasoning() -> ReasoningConfig {
    let mut map = TextMap::new();
    map.insert(" Low ".to_string(), "high".to_string());
    map.insert("*".to_string(), "max".to_string());
    ReasoningConfig {
        default: Some(" Medium ".to_string()),
        map,
        thinking_param_name: "thinking_mode".to_string(),
        thinking_param_value_on: json(r#""enabled""#),
        thinking_param_value_off: json(r#""disabled""#),
    }
}

#[test]
fn typed_reasoning_becomes_a_policy() {
    let persisted = PersistedConfig {
        upstreams: backend_upstreams(),
        model_profiles: profiles(vec![(
            "served-model",
            PersistedModelProfile {
                reasoning_effort: Some(typed_reasoning()),
                ..profile("backend")
            },
        )]),
        ..PersistedConfig::default()
    };
    let config = from_persisted(&persisted).expect("config");
    let policies = config.reasoning_effort_policies();
    let policy = policies.get("served-model").expect("policy");
    assert_eq!(policy.default.as_deref(), Some("medium"));
    let sent = |level: &str| {
        policy
            .map
            .get(level)
            .and_then(|fragment| fragment.get_str("reasoning_effort"))
    };
    assert_eq!(sent("low"), Some("high"));
    assert_eq!(sent("*"), Some("max"));
    assert_eq!(sent("medium"), None);
    let unasked = policy.unasked_fragment().expect("default");
    assert_eq!(unasked.get_str("reasoning_effort"), Some("medium"));
    let reasoning = policy.upstream_reasoning.as_ref().expect("typed");
    assert_eq!(reasoning.thinking_param_name, "thinking_mode");
    assert_eq!(reasoning.thinking_param_value(true), &json(r#""enabled""#));
    assert_eq!(reasoning.thinking_param_value(false), &json(r#""disabled""#));
}

#[test]
fn reasoning_config_is_tidied() {
    let mut config = typed_reasoning();
    config.map.insert("   ".to_string(), "high".to_string());
    config.map.insert("high".to_string(), "  ".to_string());
    config.thinking_param_name = "  ".to_string();
    let tidy = config.tidy();
    assert_eq!(tidy.default.as_deref(), Some("Medium"));
    assert_eq!(tidy.map.get("low").map(|level| level.as_str()), Some("high"));
    assert!(!tidy.map.contains_key("high"));
    assert_eq!(tidy.map.len(), 2);
    assert_eq!(tidy.thinking_param_name, "enable_thinking");
}

#[test]
fn typed_and_fragment_reasoning_syntaxes_are_mutually_exclusive() {
    let persisted = PersistedConfig {
        model_profiles: profiles(vec![(
            "broken",
            PersistedModelProfile {
                reasoning_effort: Some(ReasoningConfig {
                    default: Some("high".to_string()),
                    ..ReasoningConfig::default()
                }),
                reasoning_effort_map: fragments(&[("high", r#"{ "reasoning_effort": "high" }"#)]),
                ..PersistedModelProfile::default()
            },
        )]),
        ..PersistedConfig::default()
    };
    let error = from_persisted(&persisted).expect_err("ambiguous config must fail");
    assert!(
        error.contains("cannot be combined"),
        "unexpected error: {error}"
    );
}

#[test]
fn default_config_path_uses_llmconduit_config_dir() {
    assert_eq!(
        default_path_in(Some("/home/me/.config".to_string())),
        Ok("/home/me/.config/llmconduit/config.yaml".to_string())
    );
    assert_eq!(
        default_path_in(Some("/".to_string())),
        Ok("/llmconduit/config.yaml".to_string())
    );
    assert_eq!(
        default_path_in(None),
        Err("unable to determine configuration directory".to_string())
    );
}

#[test]
fn turn_capture_dir_trims_blank_to_none() {
    let config = PersistedConfig {
        turn_capture_dir: Some("  /tmp/llmconduit-turns  ".to_string()),
        ..PersistedConfig::default()
    };
    let result = from_persisted(&config).unwrap();
    assert_eq!(
        result.turn_capture_dir,
        Some("/tmp/llmconduit-turns".to_string())
    );

    let blank = PersistedConfig {
        turn_capture_dir: Some("   ".to_string()),
        ..PersistedConfig::default()
    };
    let blank_result = from_persisted(&blank).unwrap();
    assert_eq!(blank_result.turn_capture_dir, None);

    let unset = PersistedConfig::default();
    let unset_result = from_persisted(&unset).unwrap();
    assert_eq!(unset_result.turn_capture_dir, None);
}

#[test]
fn from_persisted_parses_explicit_upstreams_as_named_endpoints() {
    let config = PersistedConfig {
        upstreams: vec![PersistedUpstream {
            name: " local ".to_string(),
            url: " http://127.0.0.1:8000/v1 ".to_string(),
            api_key: Some(" local-secret ".to_string()),
            api_key_env: None,
            chat_kwargs: object(r#"{ "chat_template_kwargs": {"thinking": true} }"#),
            request_log_path: Some(" /tmp/llmconduit-local.jsonl ".to_string()),
            upstream_model: None,
            fallback_upstreams: None,
        }],
        model_profiles: profiles(vec![("*", profile("local"))]),
        ..PersistedConfig::default()
    };

    let result = from_persisted(&config).expect("config");

    assert_eq!(result.upstreams.len(), 1);
    let upstream = &result.upstreams[0];
    assert_eq!(upstream.name, "local");
    assert_eq!(upstream.url.as_str(), "http://127.0.0.1:8000/v1");
    assert_eq!(upstream.api_key.as_deref(), Some("local-secret"));
    assert_eq!(
        find_entry(&upstream.chat_kwargs, "chat_template_kwargs"),
        Some(&json(r#"{"thinking": true}"#))
    );
    assert_eq!(
        upstream.request_log_path.as_deref(),
        Some("/tmp/llmconduit-local.jsonl")
    );
}

#[test]
fn from_persisted_rejects_nested_fallback_upstreams_on_entries() {
    let config = PersistedConfig {
        upstreams: vec![PersistedUpstream {
            fallback_upstreams: Some(json(
                r#"[{"upstream_base_url": "https://openrouter.ai/api/v1"}]"#,
            )),
            ..upstream("local", "http://127.0.0.1:8000/v1")
        }],
        ..PersistedConfig::default()
    };

    let error = from_persisted(&config).expect_err("nested fallback_upstreams");
    assert!(
        error.contains("fallback_upstreams") && error.contains("Migrating"),
        "{error}"
    );
}

#[test]
fn openai_env_does_not_seed_entries_without_an_explicit_api_key() {
    let config = PersistedConfig {
        upstreams: vec![
            upstream("no-key", "http://127.0.0.1:8000/v1"),
            PersistedUpstream {
                api_key: Some("explicit".to_string()),
                ..upstream("own-key", "http://127.0.0.1:8001/v1")
            },
        ],
        model_profiles: profiles(vec![("*", profile("no-key"))]),
        ..PersistedConfig::default()
    };
    let result = Config::from_persisted(
        &config,
        Ok(config.bind_addr.clone()),
        &env(&[("OPENAI_API_KEY", "fallback-key-67890")]),
    )
    .expect("config");
    assert_eq!(
        result.upstreams[0].api_key, None,
        "an entry with no api_key must not inherit OPENAI_API_KEY"
    );
    assert_eq!(
        result.upstreams[1].api_key.as_deref(),
        Some("explicit"),
        "an entry with its own api_key is unaffected"
    );
}

fn config_with_one_upstream(upstream: PersistedUpstream) -> PersistedConfig {
    let name = upstream.name.clone();
    PersistedConfig {
        upstreams: vec![upstream],
        model_profiles: profiles(vec![("*", profile(&name))]),
        ..PersistedConfig::default()
    }
}

#[test]
fn api_key_env_resolves_from_environment() {
    let persisted = config_with_one_upstream(PersistedUpstream {
        api_key_env: Some("LLMCONDUIT_TEST_ENTRY_KEY".to_string()),
        ..upstream("env-auth", "http://127.0.0.1:8000/v1")
    });
    let result = Config::from_persisted(
        &persisted,
        Ok(persisted.bind_addr.clone()),
        &env(&[("LLMCONDUIT_TEST_ENTRY_KEY", "  env-secret  ")]),
    )
    .expect("config");
    assert_eq!(result.upstreams[0].api_key.as_deref(), Some("env-secret"));
}

#[test]
fn api_key_env_with_unset_variable_is_a_startup_error() {
    let config = config_with_one_upstream(PersistedUpstream {
        api_key_env: Some("LLMCONDUIT_TEST_ENTRY_KEY_UNSET".to_string()),
        ..upstream("env-auth", "http://127.0.0.1:8000/v1")
    });
    let error = from_persisted(&config).expect_err("startup error");
    assert!(
        error.contains("env-auth") && error.contains("LLMCONDUIT_TEST_ENTRY_KEY_UNSET"),
        "{error}"
    );
    let blank = env(&[("LLMCONDUIT_TEST_ENTRY_KEY_UNSET", "  ")]);
    assert!(Config::from_persisted(&config, Ok(config.bind_addr.clone()), &blank).is_err());
}

#[test]
fn api_key_and_api_key_env_are_mutually_exclusive() {
    let config = config_with_one_upstream(PersistedUpstream {
        api_key: Some("literal".to_string()),
        api_key_env: Some("LLMCONDUIT_TEST_ENTRY_KEY_BOTH".to_string()),
        ..upstream("env-auth", "http://127.0.0.1:8000/v1")
    });
    let error = Config::from_persisted(
        &config,
        Ok(config.bind_addr.clone()),
        &env(&[("LLMCONDUIT_TEST_ENTRY_KEY_BOTH", "env-secret")]),
    )
    .expect_err("startup error");
    assert!(error.contains("mutually exclusive"), "{error}");
}

#[test]
fn apply_env_overrides_system_prompt_prefix() {
    let mut config = PersistedConfig::default();
    let env = env(&[("LLMCONDUIT_SYSTEM_PROMPT_PREFIX", "Global prefix.")]);
    apply_env_overrides(&mut config, &env, None);
    assert_eq!(
        config.system_prompt_prefix,
        Some("Global prefix.".to_string())
    );
}

#[test]
fn apply_env_overrides_turn_capture_dir() {
    let mut config = PersistedConfig::default();
    let env = env(&[("LLMCONDUIT_TURN_CAPTURE_DIR", "/tmp/llmconduit-turns")]);
    apply_env_overrides(&mut config, &env, None);
    assert_eq!(
        config.turn_capture_dir,
        Some("/tmp/llmconduit-turns".to_string())
    );
}

#[test]
fn apply_env_overrides_turn_capture_dir_ignores_blank() {
    let mut config = PersistedConfig {
        turn_capture_dir: Some("/tmp/llmconduit-existing".to_string()),
        ..PersistedConfig::default()
    };
    apply_env_overrides(&mut config, &env(&[("LLMCONDUIT_TURN_CAPTURE_DIR", "   ")]), None);
    assert_eq!(
        config.turn_capture_dir,
        Some("/tmp/llmconduit-existing".to_string()),
        "a blank env override must not clobber the persisted value"
    );
}

#[test]
fn apply_env_overrides_template_family() {
    let mut config = PersistedConfig::default();
    apply_env_overrides(&mut config, &env(&[("LLMCONDUIT_TEMPLATE_FAMILY", "deepseek")]), None);
    assert_eq!(config.template_family, Some("deepseek".to_string()));
    let resolved = from_persisted(&config).expect("config");
    assert_eq!(resolved.template_family, Some("deepseek".to_string()));
}

#[test]
fn apply_env_overrides_upstream_failure_cooldown() {
    let mut config = PersistedConfig::default();
    let env = env(&[("LLMCONDUIT_UPSTREAM_FAILURE_COOLDOWN_SECS", "7")]);
    apply_env_overrides(&mut config, &env, None);
    assert_eq!(config.upstream_failure_cooldown_secs, 7);
}

#[test]
fn every_other_variable_overrides_its_setting() {
    let mut config = PersistedConfig::default();
    let env = env(&[
        ("LLMCONDUIT_BIND_ADDR", "0.0.0.0:1"),
        ("LLMCONDUIT_UPSTREAM_REQUEST_LOG_PATH", "/tmp/log"),
        ("LLMCONDUIT_UPSTREAM_CHAT_KWARGS_JSON", r#"{"a": 1}"#),
        ("LLMCONDUIT_BRAVE_BASE_URL", "https://brave"),
        ("BRAVE_SEARCH_API_KEY", "key"),
        ("LLMCONDUIT_BRAVE_MAX_RESULTS", "9"),
        ("LLMCONDUIT_REQUEST_TIMEOUT_SECS", "+61"),
        ("LLMCONDUIT_CONNECT_TIMEOUT_SECS", "11"),
        ("LLMCONDUIT_MAX_WEB_SEARCH_ROUNDS", "6"),
        ("LLMCONDUIT_FLATTEN_CONTENT", "false"),
        ("LLMCONDUIT_MAX_REPLAY_ENTRIES", "12"),
        ("LLMCONDUIT_DEBUG_LOG_MAX_AGE_HOURS", " 48 "),
        ("LLMCONDUIT_MIN_COMPLETION_TOKENS", " 512 "),
        ("LLMCONDUIT_MAX_SSE_FRAME_BYTES", "2048"),
        ("LLMCONDUIT_MAX_REQUEST_BODY_BYTES", "4096"),
        ("LLMCONDUIT_IMAGE_CACHE_MAX_SIZE", "3"),
        ("LLMCONDUIT_IMAGE_CACHE_TTL_SECS", "0"),
    ]);
    apply_env_overrides(&mut config, &env, None);
    assert_eq!(config.bind_addr, "0.0.0.0:1");
    assert_eq!(config.upstream_request_log_path.as_deref(), Some("/tmp/log"));
    assert_eq!(text(&config.upstream_chat_kwargs), r#"{"a":1}"#);
    assert_eq!(config.brave_base_url, "https://brave");
    assert_eq!(config.brave_api_key.as_deref(), Some("key"));
    assert_eq!(config.brave_max_results, 9);
    assert_eq!(config.request_timeout_secs, 61);
    assert_eq!(config.connect_timeout_secs, 11);
    assert_eq!(config.max_web_search_rounds, 6);
    assert!(!config.flatten_content);
    assert_eq!(config.max_replay_entries, 12);
    assert_eq!(config.debug_log_max_age_hours, Some(48));
    assert_eq!(config.min_completion_tokens, 512);
    assert_eq!(config.max_sse_frame_bytes, 2048);
    assert_eq!(config.max_request_body_bytes, 4096);
    assert_eq!(config.image_cache_max_size, 3);
    assert_eq!(config.image_cache_ttl_secs, 0);
}

#[test]
fn variables_that_hold_something_else_change_nothing() {
    let mut config = PersistedConfig::default();
    let env = env(&[
        ("LLMCONDUIT_UPSTREAM_CHAT_KWARGS_JSON", "[1]"),
        ("LLMCONDUIT_BRAVE_MAX_RESULTS", " 9"),
        ("LLMCONDUIT_REQUEST_TIMEOUT_SECS", "-1"),
        ("LLMCONDUIT_CONNECT_TIMEOUT_SECS", "18446744073709551616"),
        ("LLMCONDUIT_FLATTEN_CONTENT", "False"),
        ("LLMCONDUIT_MIN_COMPLETION_TOKENS", "0"),
        ("LLMCONDUIT_MAX_SSE_FRAME_BYTES", "0"),
        ("LLMCONDUIT_IMAGE_CACHE_MAX_SIZE", "one"),
        ("LLMCONDUIT_PRICE_TABLE_JSON", "   "),
    ]);
    let mut prices = TextMap::new();
    prices.insert("m".to_string(), ModelPrice::without_cached(number("1.0"), number("1.0")));
    apply_env_overrides(&mut config, &env, Some(prices));
    assert_eq!(config, PersistedConfig::default());
}

#[test]
fn numbers_are_read_to_their_limits() {
    assert_eq!(parse_unsigned("18446744073709551615", u64::MAX), Some(u64::MAX));
    assert_eq!(parse_unsigned("18446744073709551616", u64::MAX), None);
    assert_eq!(parse_unsigned("007", 7), Some(7));
    assert_eq!(parse_unsigned("8", 7), None);
    assert_eq!(parse_unsigned("", 7), None);
    assert_eq!(parse_unsigned("+", 7), None);
    assert_eq!(parse_unsigned("1_0", 100), None);
    assert_eq!(parse_signed("-9223372036854775808"), Some(i64::MIN));
    assert_eq!(parse_signed("-9223372036854775809"), None);
    assert_eq!(parse_signed("9223372036854775807"), Some(i64::MAX));
    assert_eq!(parse_signed("9223372036854775808"), None);
    assert_eq!(parse_signed("-0"), Some(0));
    assert_eq!(parse_signed("+-1"), None);
    assert_eq!(parse_bool("true"), Some(true));
    assert_eq!(parse_bool("false"), Some(false));
    assert_eq!(parse_bool("yes"), None);
}

#[test]
fn resolves_profile_specific_upstream_chat_kwargs() {
    let config = from_persisted(&PersistedConfig {
        bind_addr: "127.0.0.1:4010".to_string(),
        upstream_chat_kwargs: object(
            r#"{ "chat_template_kwargs": { "thinking": false, "global_only": true } }"#,
        ),
        upstreams: backend_upstreams(),
        model_profiles: profiles(vec![(
            "Reasoner-A26",
            PersistedModelProfile {
                upstream_chat_kwargs: object(
                    r#"{ "chat_template_kwargs": { "thinking": true, "preserve_thinking": true } }"#,
                ),
                ..profile("backend")
            },
        )]),
        ..PersistedConfig::default()
    })
    .expect("config");

    assert_eq!(
        config.resolve_upstream_model("Reasoner-A26"),
        "Reasoner-A26".to_string()
    );
    assert_eq!(
        leaf_chat_kwargs(&config, "Reasoner-A26"),
        text(&object(
            r#"{ "chat_template_kwargs": { "thinking": true, "preserve_thinking": true, "global_only": true } }"#
        ))
    );
    assert_eq!(
        leaf_chat_kwargs(&config, "unprofiled-plain"),
        text(&object(
            r#"{ "chat_template_kwargs": { "thinking": false, "global_only": true } }"#
        ))
    );
}

fn profile_with_family(family: &str) -> PersistedModelProfile {
    PersistedModelProfile {
        template_family: Some(family.to_string()),
        ..profile("default")
    }
}

#[test]
fn resolves_template_family_override_from_profile_and_global() {
    let config = from_persisted(&PersistedConfig {
        template_family: Some("deepseek".to_string()),
        model_profiles: profiles(vec![("Router-X", profile_with_family("KIMI"))]),
        ..PersistedConfig::default()
    })
    .expect("config");

    let mut expected = TextMap::new();
    expected.insert("Router-X".to_string(), "kimi".to_string());
    assert_eq!(config.template_family_policies(), expected);
    assert_eq!(
        config.global_template_family(),
        Some("deepseek".to_string())
    );
    assert_eq!(leaf_family(&config, "Router-X").as_deref(), Some("kimi"));
    assert_eq!(leaf_family(&config, "plain-model").as_deref(), Some("deepseek"));
}

fn family_profile(family: &str, upstream_model: Option<&str>) -> PersistedModelProfile {
    PersistedModelProfile {
        template_family: Some(family.to_string()),
        upstream_model: upstream_model.map(str::to_string),
        ..profile("backend")
    }
}

#[test]
fn leaf_finds_glob_policy_by_pattern_without_upstream_model() {
    let config = from_persisted(&PersistedConfig {
        upstreams: backend_upstreams(),
        model_profiles: profiles(vec![("router-*", family_profile("kimi", None))]),
        ..PersistedConfig::default()
    })
    .expect("config");
    assert_eq!(leaf_family(&config, "router-7").as_deref(), Some("kimi"));
}

#[test]
fn leaf_finds_glob_with_upstream_model_by_served_id_not_pattern() {
    let config = from_persisted(&PersistedConfig {
        upstreams: backend_upstreams(),
        model_profiles: profiles(vec![(
            "alias-*",
            family_profile("kimi", Some("backend-fixed")),
        )]),
        ..PersistedConfig::default()
    })
    .expect("config");
    assert_eq!(leaf_family(&config, "backend-fixed").as_deref(), Some("kimi"));
    assert!(leaf_family(&config, "alias-9").is_none());
}

#[test]
fn leaf_exact_policy_beats_matching_glob_policy() {
    let config = from_persisted(&PersistedConfig {
        upstreams: backend_upstreams(),
        model_profiles: profiles(vec![
            ("served-x", family_profile("deepseek", None)),
            ("served-*", family_profile("kimi", None)),
        ]),
        ..PersistedConfig::default()
    })
    .expect("config");
    assert_eq!(leaf_family(&config, "served-x").as_deref(), Some("deepseek"));
    assert_eq!(leaf_family(&config, "served-9").as_deref(), Some("kimi"));
}

#[test]
fn template_family_normalizes_and_rejects_unknown_values() {
    let config = from_persisted(&PersistedConfig {
        template_family: Some("  Bogus ".to_string()),
        ..PersistedConfig::default()
    })
    .expect("config");
    assert_eq!(config.template_family, None);
    assert!(config.template_family_policies().is_empty());
    assert_eq!(config.global_template_family(), None);
    assert!(leaf_family(&config, "m").is_none());

    let config = from_persisted(&PersistedConfig {
        template_family: Some("KIMI".to_string()),
        ..PersistedConfig::default()
    })
    .expect("config");
    assert_eq!(config.template_family, Some("kimi".to_string()));
    assert_eq!(config.global_template_family(), Some("kimi".to_string()));
}

#[test]
fn profile_template_family_shorthand_does_not_leak_into_chat_kwargs() {
    let kwargs = shorthand_chat_kwargs(
        &object(r#"{ "template_family": "kimi", "thinking": true }"#),
        &Vec::new(),
    );
    assert!(find_entry(&kwargs, "template_family").is_none());
    assert_eq!(find_entry(&kwargs, "thinking"), Some(&json("true")));
}

#[test]
fn resolves_model_profiles_case_insensitively() {
    let config = from_persisted(&PersistedConfig {
        bind_addr: "127.0.0.1:4010".to_string(),
        upstreams: backend_upstreams(),
        model_profiles: profiles(vec![(
            "MiMo-V2.5",
            PersistedModelProfile {
                upstream_model: Some("mimo-v2.5".to_string()),
                system_prompt_prefix: Some("Prefer concise answers.".to_string()),
                upstream_chat_kwargs: object(
                    r#"{ "separate_reasoning": true, "chat_template_kwargs": { "enable_thinking": true, "keep_all_reasoning": true } }"#,
                ),
                ..profile("backend")
            },
        )]),
        ..PersistedConfig::default()
    })
    .expect("config");

    assert_eq!(config.resolve_upstream_model("mimo-v2.5"), "mimo-v2.5");
    assert_eq!(
        leaf_chat_kwargs(&config, "mimo-v2.5"),
        text(&object(
            r#"{ "separate_reasoning": true, "chat_template_kwargs": { "enable_thinking": true, "keep_all_reasoning": true } }"#
        ))
    );
}

#[test]
fn leaf_resolves_only_final_model_profile_not_request_alias() {
    let config = from_persisted(&PersistedConfig {
        bind_addr: "127.0.0.1:4010".to_string(),
        upstreams: backend_upstreams(),
        model_profiles: profiles(vec![
            (
                "xiaomi/mimo-v2.5-pro",
                PersistedModelProfile {
                    system_prompt_prefix: Some("Backend prefix.".to_string()),
                    upstream_chat_kwargs: object(
                        r#"{ "reasoning": { "enabled": true, "effort": "medium" } }"#,
                    ),
                    ..profile("backend")
                },
            ),
            (
                "client-default-model",
                PersistedModelProfile {
                    system_prompt_prefix: Some("Client prefix.".to_string()),
                    upstream_chat_kwargs: object(r#"{ "reasoning": { "effort": "high" } }"#),
                    ..profile("backend")
                },
            ),
        ]),
        ..PersistedConfig::default()
    })
    .expect("config");

    assert_eq!(
        leaf_chat_kwargs(&config, "xiaomi/mimo-v2.5-pro"),
        text(&object(r#"{ "reasoning": { "enabled": true, "effort": "medium" } }"#))
    );
    assert_eq!(
        leaf_chat_kwargs(&config, "client-default-model"),
        text(&object(r#"{ "reasoning": { "effort": "high" } }"#))
    );
    assert_eq!(
        config
            .resolve_system_prompt_prefix("client-default-model")
            .as_deref(),
        Some("Client prefix.")
    );
}

#[test]
fn resolves_exact_model_profile_before_case_insensitive_fallback() {
    let with = |prefix: &str, kwargs: &str| PersistedModelProfile {
        system_prompt_prefix: Some(prefix.to_string()),
        upstream_chat_kwargs: object(kwargs),
        ..profile("backend")
    };
    let config = from_persisted(&PersistedConfig {
        bind_addr: "127.0.0.1:4010".to_string(),
        upstreams: backend_upstreams(),
        model_profiles: profiles(vec![
            ("MiMo-V2.5", with("Upper prefix.", r#"{ "stream_reasoning": true }"#)),
            ("mimo-v2.5", with("Lower prefix.", r#"{ "stream_reasoning": false }"#)),
        ]),
        ..PersistedConfig::default()
    })
    .expect("config");

    assert_eq!(config.resolve_upstream_model("mimo-v2.5"), "mimo-v2.5");
    assert_eq!(
        leaf_chat_kwargs(&config, "mimo-v2.5"),
        text(&object(r#"{ "stream_reasoning": false }"#))
    );
    assert_eq!(
        config.resolve_system_prompt_prefix("mimo-v2.5").as_deref(),
        Some("Lower prefix.")
    );
}

fn fallback(upstream: &str, model: Option<&str>) -> PersistedProfileFallback {
    PersistedProfileFallback {
        upstream: upstream.to_string(),
        model: model.map(str::to_string),
    }
}

#[test]
fn normalizes_profile_fallback_model_overrides() {
    let persisted = PersistedConfig {
        upstreams: vec![
            upstream("backend", "http://h/v1"),
            upstream("padded", "http://h/v1"),
            upstream("blank", "http://h/v1"),
        ],
        model_profiles: profiles(vec![(
            "served-model",
            PersistedModelProfile {
                fallbacks: Some(vec![
                    fallback("padded", Some("  model-x  ")),
                    fallback("blank", Some("   ")),
                ]),
                ..profile("backend")
            },
        )]),
        ..PersistedConfig::default()
    };
    let config = from_persisted(&persisted).expect("config");
    let profile = config.model_profile("served-model").expect("profile");
    assert_eq!(profile.fallbacks[0].model.as_deref(), Some("model-x"));
    assert_eq!(profile.fallbacks[1].model, None);
}

#[test]
fn resolves_global_system_prompt_prefix_with_profile_prefix() {
    let config = from_persisted(&PersistedConfig {
        system_prompt_prefix: Some("Global prefix.".to_string()),
        model_profiles: profiles(vec![(
            "GLM-5.1",
            PersistedModelProfile {
                system_prompt_prefix: Some("Profile prefix.".to_string()),
                ..profile("default")
            },
        )]),
        ..PersistedConfig::default()
    })
    .expect("config");

    assert_eq!(
        config.resolve_system_prompt_prefix("GLM-5.1").as_deref(),
        Some("Global prefix.\n\nProfile prefix.")
    );
    assert_eq!(
        config
            .resolve_system_prompt_prefix("unprofiled-model")
            .as_deref(),
        Some("Global prefix.")
    );
}

#[test]
fn model_profiles_extend_templates_in_order() {
    let config = from_persisted(&PersistedConfig {
        model_profile_templates: templates(vec![
            (
                "reasoning",
                PersistedModelProfile {
                    system_prompt_prefix: Some("Reasoning prefix.".to_string()),
                    upstream_chat_kwargs: object(
                        r#"{ "reasoning": { "enabled": true, "effort": "medium" }, "chat_template_kwargs": { "nested": { "shared": "reasoning", "template_only": true } } }"#,
                    ),
                    ..PersistedModelProfile::default()
                },
            ),
            (
                "streaming",
                PersistedModelProfile {
                    extends: vec!["reasoning".to_string()],
                    upstream_chat_kwargs: object(
                        r#"{ "stream_reasoning": true, "reasoning": { "effort": "high" }, "chat_template_kwargs": { "nested": { "shared": "streaming" } } }"#,
                    ),
                    ..PersistedModelProfile::default()
                },
            ),
        ]),
        model_profiles: profiles(vec![(
            "GLM-5.1",
            PersistedModelProfile {
                extends: vec!["streaming".to_string()],
                system_prompt_prefix: Some("Model prefix.".to_string()),
                upstream_chat_kwargs: object(
                    r#"{ "reasoning": { "max_tokens": 512 }, "chat_template_kwargs": { "clear_thinking": false, "nested": { "profile_only": true } } }"#,
                ),
                ..profile("default")
            },
        )]),
        ..PersistedConfig::default()
    })
    .expect("config");

    assert_eq!(
        config.resolve_system_prompt_prefix("GLM-5.1").as_deref(),
        Some("Reasoning prefix.\n\nModel prefix.")
    );
    assert_eq!(
        leaf_chat_kwargs(&config, "GLM-5.1"),
        text(&object(
            r#"{ "reasoning": { "enabled": true, "effort": "high", "max_tokens": 512 }, "chat_template_kwargs": { "clear_thinking": false, "nested": { "shared": "streaming", "template_only": true, "profile_only": true } }, "stream_reasoning": true }"#
        ))
    );
}

#[test]
fn model_profile_shorthand_kwargs_merge_with_explicit_wrapper() {
    let nothing: JsonMap = Vec::new();
    let persisted = PersistedConfig {
        upstreams: backend_upstreams(),
        model_profile_templates: templates(vec![(
            "reasoning",
            PersistedModelProfile {
                upstream_chat_kwargs: shorthand_chat_kwargs(
                    &object(
                        r#"{ "separate_reasoning": true, "chat_template_kwargs": { "thinking": true } }"#,
                    ),
                    &nothing,
                ),
                ..PersistedModelProfile::default()
            },
        )]),
        model_profiles: profiles(vec![(
            "Reasoner-D4",
            PersistedModelProfile {
                extends: vec!["reasoning".to_string()],
                upstream_chat_kwargs: shorthand_chat_kwargs(
                    &object(
                        r#"{ "upstream": "backend", "stream_reasoning": true, "chat_template_kwargs": { "separate_reasoning": true, "thinking": false } }"#,
                    ),
                    &object(
                        r#"{ "reasoning_effort": "high", "chat_template_kwargs": { "thinking": true } }"#,
                    ),
                ),
                ..profile("backend")
            },
        )]),
        ..PersistedConfig::default()
    };
    let config = from_persisted(&persisted).expect("config");

    assert_eq!(
        leaf_chat_kwargs(&config, "Reasoner-D4"),
        text(&object(
            r#"{ "separate_reasoning": true, "stream_reasoning": true, "reasoning_effort": "high", "chat_template_kwargs": { "thinking": true, "separate_reasoning": true } }"#
        ))
    );
}

fn extending(name: &str) -> PersistedModelProfile {
    PersistedModelProfile {
        extends: vec![name.to_string()],
        ..PersistedModelProfile::default()
    }
}

#[test]
fn model_profiles_reject_unknown_template() {
    let error = from_persisted(&PersistedConfig {
        model_profiles: profiles(vec![("GLM-5.1", extending("missing"))]),
        ..PersistedConfig::default()
    })
    .expect_err("unknown template should fail");

    assert!(error.contains("model_profiles[GLM-5.1]: unknown template \"missing\""));
}

#[test]
fn model_profiles_reject_template_cycles() {
    let error = from_persisted(&PersistedConfig {
        model_profile_templates: templates(vec![("a", extending("b")), ("b", extending("a"))]),
        model_profiles: profiles(vec![("GLM-5.1", extending("a"))]),
        ..PersistedConfig::default()
    })
    .expect_err("template cycle should fail");

    assert!(error.contains("model_profiles[GLM-5.1]: template cycle: a -> b -> a"));
}

#[test]
fn merges_nested_profile_chat_kwargs() {
    let mut destination = object(
        r#"{ "chat_template_kwargs": { "enable_thinking": true, "clear_thinking": false }, "stream_reasoning": true }"#,
    );
    let source = object(
        r#"{ "chat_template_kwargs": { "thinking": true, "preserve_thinking": true } }"#,
    );

    merge_json_maps(&mut destination, &source);

    assert_eq!(
        text(&destination),
        text(&object(
            r#"{ "chat_template_kwargs": { "enable_thinking": true, "clear_thinking": false, "thinking": true, "preserve_thinking": true }, "stream_reasoning": true }"#
        ))
    );
}

#[test]
fn test_connect_timeout_default_is_10() {
    let persisted = PersistedConfig::default();
    assert_eq!(persisted.connect_timeout_secs, 10);
    let config = from_persisted(&persisted).unwrap();
    assert_eq!(config.connect_timeout_secs, 10);
    assert_eq!(config.connect_timeout(), TimeSpan { secs: 10, nanos: 0 });
}

fn config_with_no_upstreams(
    upstream_request_log_path: Option<String>,
    turn_capture_dir: Option<String>,
) -> Config {
    Config {
        bind_addr: "127.0.0.1:4010".to_string(),
        system_prompt_prefix: None,
        upstream_request_log_path,
        turn_capture_dir,
        upstream_chat_kwargs: Vec::new(),
        upstreams: Vec::new(),
        upstream_failure_cooldown_secs: 30,
        model_profiles: Vec::new(),
        template_family: None,
        brave_base_url: "https://api.search.brave.com/res/v1".to_string(),
        brave_api_key: None,
        brave_max_results: 5,
        request_timeout: TimeSpan { secs: 60, nanos: 0 },
        connect_timeout_secs: 10,
        max_web_search_rounds: 5,
        flatten_content: true,
        max_replay_entries: 1000,
        debug_log_max_age_hours: None,
        min_completion_tokens: 4096,
        max_sse_frame_bytes: 8 * 1024 * 1024,
        max_request_body_bytes: 10 * 1024 * 1024,
        image_cache_max_size: 100,
        image_cache_ttl_secs: 300,
        price_table: TextMap::new(),
    }
}

#[test]
fn passes_prefixed_model_name_unmodified_when_no_profile() {
    let config = config_with_no_upstreams(None, None);

    assert_eq!(
        config.resolve_upstream_model("anthropic/Kimi-K2.6"),
        "anthropic/Kimi-K2.6"
    );
    assert_eq!(leaf_chat_kwargs(&config, "vendor/plain-v1"), "{}");
    assert!(config.is_plain_single_provider());
}

#[test]
fn resolves_exact_prefix_model_profile_when_present() {
    let config = from_persisted(&PersistedConfig {
        bind_addr: "127.0.0.1:4010".to_string(),
        upstreams: backend_upstreams(),
        model_profiles: profiles(vec![(
            "anthropic/Kimi-K2.6",
            PersistedModelProfile {
                upstream_model: Some("anthropic-custom".to_string()),
                ..profile("backend")
            },
        )]),
        ..PersistedConfig::default()
    })
    .expect("config");

    assert_eq!(
        config.resolve_upstream_model("anthropic/Kimi-K2.6"),
        "anthropic-custom"
    );
}

#[test]
fn debug_log_dirs_single_mode_includes_top_level_path() {
    let config = config_with_no_upstreams(
        Some("/tmp/llmconduit-top/primary.jsonl".to_string()),
        None,
    );

    let dirs = config.debug_log_dirs();
    assert_eq!(
        dirs,
        vec!["/tmp/llmconduit-top".to_string()],
        "single/failover mode must include the top-level log dir"
    );
}

#[test]
fn debug_log_dirs_routing_mode_excludes_inactive_top_level_path() {
    let config = from_persisted(&PersistedConfig {
        upstream_request_log_path: Some(
            "/tmp/llmconduit-inactive-top/primary.jsonl".to_string(),
        ),
        upstreams: vec![PersistedUpstream {
            request_log_path: Some("/tmp/llmconduit-routing/primary.jsonl".to_string()),
            ..upstream("routing", "http://127.0.0.1:8000/v1")
        }],
        model_profiles: profiles(vec![("*", profile("routing"))]),
        ..PersistedConfig::default()
    })
    .expect("config");

    let dirs = config.debug_log_dirs();
    assert_eq!(
        dirs,
        vec!["/tmp/llmconduit-routing".to_string()],
        "routing mode must collect only routing-upstream log dirs"
    );
    assert!(
        !dirs.contains(&"/tmp/llmconduit-inactive-top".to_string()),
        "routing mode must exclude the inactive top-level log dir"
    );
}

#[test]
fn debug_log_dirs_includes_turn_capture_dir() {
    let config = config_with_no_upstreams(
        Some("/tmp/llmconduit-top/primary.jsonl".to_string()),
        Some("/tmp/llmconduit-turns".to_string()),
    );

    let dirs = config.debug_log_dirs();
    assert_eq!(
        dirs,
        vec![
            "/tmp/llmconduit-top".to_string(),
            "/tmp/llmconduit-turns".to_string(),
        ],
        "turn_capture_dir must be collected alongside the request-log dirs"
    );
}

#[test]
fn debug_log_dirs_includes_turn_capture_dir_in_routing_mode() {
    let config = from_persisted(&PersistedConfig {
        turn_capture_dir: Some("/tmp/llmconduit-turns".to_string()),
        upstreams: vec![upstream("routing", "http://127.0.0.1:8000/v1")],
        model_profiles: profiles(vec![("*", profile("routing"))]),
        ..PersistedConfig::default()
    })
    .expect("config");

    let dirs = config.debug_log_dirs();
    assert_eq!(
        dirs,
        vec!["/tmp/llmconduit-turns".to_string()],
        "turn_capture_dir must be collected in routing mode too"
    );
}

#[test]
fn debug_log_dirs_dedups_turn_capture_dir_against_request_log_dir() {
    let config = config_with_no_upstreams(
        Some("/tmp/llmconduit-shared/requests.jsonl".to_string()),
        Some("/tmp/llmconduit-shared".to_string()),
    );

    let dirs = config.debug_log_dirs();
    assert_eq!(dirs, vec!["/tmp/llmconduit-shared".to_string()]);
}

#[test]
fn log_file_without_directory_is_in_the_current_one() {
    let config = config_with_no_upstreams(
        Some("requests.jsonl".to_string()),
        Some("./".to_string()),
    );
    assert_eq!(config.debug_log_dirs(), vec![".".to_string()]);
}

fn priced(entries: Vec<(&str, ModelPrice)>) -> TextMap<ModelPrice> {
    let mut table = TextMap::new();
    for (model, price) in entries {
        table.insert(model.to_string(), price);
    }
    table
}

#[test]
fn price_table_loads_from_yaml_and_price_for_resolves() {
    let persisted = PersistedConfig {
        price_table: priced(vec![
            (
                "glm-5.1",
                ModelPrice::from_parts(number("2.0"), number("6.0"), Some(number("0.5")), None),
            ),
            (
                "cheap-model",
                ModelPrice::from_parts(number("0.1"), number("0.2"), None, None),
            ),
        ]),
        upstreams: vec![upstream("u", "http://h/v1")],
        model_profiles: profiles(vec![("*", profile("u"))]),
        ..PersistedConfig::default()
    };
    let config = from_persisted(&persisted).expect("config");

    let glm = config.price_for("glm-5.1").expect("glm priced");
    assert_eq!(glm.input_per_1k, number("2.0"));
    assert_eq!(glm.output_per_1k, number("6.0"));
    assert_eq!(glm.cached_per_1k, number("0.5"));
    let cheap = config.price_for("cheap-model").expect("cheap priced");
    assert_eq!(cheap.cached_per_1k, number("0"));
    assert!(config.price_for("unknown-model").is_none());
}

#[test]
fn price_for_is_case_insensitive() {
    let persisted = PersistedConfig {
        price_table: priced(vec![(
            "GLM-5.1",
            ModelPrice::without_cached(number("1.0"), number("2.0")),
        )]),
        ..Default::default()
    };
    let config = from_persisted(&persisted).expect("config");
    assert!(
        config.price_for("glm-5.1").is_some(),
        "a differently-cased served model still resolves its configured price"
    );
}

#[test]
fn apply_env_overrides_price_table_json() {
    let env_table = priced(vec![(
        "env-model",
        ModelPrice::from_parts(number("3.0"), number("9.0"), Some(number("1.0")), None),
    )]);
    let variables = env(&[(
        "LLMCONDUIT_PRICE_TABLE_JSON",
        r#"{"env-model":{"input_per_1k":3.0,"output_per_1k":9.0,"cached_per_1k":1.0}}"#,
    )]);
    let mut config = PersistedConfig::default();
    config.price_table.insert(
        "yaml-model".to_string(),
        ModelPrice::without_cached(number("1.0"), number("1.0")),
    );
    apply_env_overrides(&mut config, &variables, Some(env_table));
    assert!(
        config.price_table.contains_key("env-model"),
        "the env JSON installs its model"
    );
    assert!(
        !config.price_table.contains_key("yaml-model"),
        "the env JSON REPLACES (not merges) the YAML table"
    );

    let malformed = env(&[("LLMCONDUIT_PRICE_TABLE_JSON", "{not valid json")]);
    let mut config2 = PersistedConfig::default();
    config2.price_table.insert(
        "kept".to_string(),
        ModelPrice::without_cached(number("1.0"), number("1.0")),
    );
    apply_env_overrides(&mut config2, &malformed, None);
    assert!(
        config2.price_table.contains_key("kept"),
        "a malformed env JSON is ignored, leaving the configured table intact"
    );
}

#[test]
fn price_table_rejects_non_finite_rates_on_load() {
    let persisted = PersistedConfig {
        price_table: priced(vec![
            ("good", ModelPrice::without_cached(number("2.0"), number("6.0"))),
            ("bad-inf", ModelPrice::without_cached(None, number("1.0"))),
        ]),
        upstreams: vec![upstream("u", "http://h/v1")],
        model_profiles: profiles(vec![("*", profile("u"))]),
        ..PersistedConfig::default()
    };
    let config = from_persisted(&persisted).expect("config");
    assert!(
        config.price_for("good").is_some(),
        "a finite YAML price survives the finite filter"
    );
    assert!(
        config.price_for("bad-inf").is_none(),
        "a non-finite YAML price entry is dropped at load"
    );

    let table = priced(vec![
        ("finite", ModelPrice::without_cached(number("1.0"), number("2.0"))),
        ("nan-input", ModelPrice::without_cached(None, number("2.0"))),
        ("inf-cached", ModelPrice::new(number("1.0"), number("2.0"), None)),
    ]);
    let table = retain_finite_prices(&table);
    assert!(table.contains_key("finite"), "a finite price survives");
    assert!(
        !table.contains_key("nan-input"),
        "a rate that is no number in any field drops the entry"
    );
    assert!(
        !table.contains_key("inf-cached"),
        "an infinite rate in any field drops the entry"
    );
}

#[test]
fn model_price_cached_presence_distinguishes_configured_zero_from_omitted() {
    let omitted = ModelPrice::from_parts(number("2.0"), number("6.0"), None, None);
    assert_eq!(omitted.cached_per_1k, number("0"));
    assert!(
        !omitted.cached_price_configured,
        "an omitted cached rate is NOT configured"
    );

    let configured_zero =
        ModelPrice::from_parts(number("2.0"), number("6.0"), Some(number("0.0")), None);
    assert_eq!(configured_zero.cached_per_1k, number("0.0"));
    assert!(
        configured_zero.cached_price_configured,
        "an explicit cached_per_1k: 0.0 IS configured (distinct from omitted)"
    );

    let configured =
        ModelPrice::from_parts(number("2.0"), number("6.0"), Some(number("0.5")), None);
    assert_eq!(configured.cached_per_1k, number("0.5"));
    assert!(configured.cached_price_configured);

    let back = ModelPrice::from_parts(
        configured.input_per_1k.duplicate(),
        configured.output_per_1k.duplicate(),
        Some(configured.cached_per_1k.duplicate()),
        Some(configured.cached_price_configured),
    );
    assert!(back.cached_price_configured);
    assert_eq!(back.cached_per_1k, number("0.5"));

    assert!(ModelPrice::new(number("1.0"), number("2.0"), number("0.0")).cached_price_configured);
    assert!(!ModelPrice::without_cached(number("1.0"), number("2.0")).cached_price_configured);
}

#[test]
fn model_price_configured_false_round_trips_as_not_configured() {
    let unconfigured = ModelPrice::without_cached(number("2.0"), number("6.0"));
    assert!(!unconfigured.cached_price_configured);

    let back = ModelPrice::from_parts(
        unconfigured.input_per_1k.duplicate(),
        unconfigured.output_per_1k.duplicate(),
        Some(unconfigured.cached_per_1k.duplicate()),
        Some(unconfigured.cached_price_configured),
    );
    assert!(
        !back.cached_price_configured,
        "a serialized no-cache-rate price stays NOT configured on re-parse \
         (explicit flag beats the cached_per_1k-presence heuristic)"
    );
    assert_eq!(back.cached_per_1k, number("0"));
    assert_eq!(back, unconfigured, "full round-trip equality");

    let persisted = PersistedConfig {
        price_table: priced(vec![("no-cache", back)]),
        ..Default::default()
    };
    let config = from_persisted(&persisted).expect("config");
    let price = config.price_for("no-cache").expect("priced");
    assert!(!price.cached_price_configured);

    let flag_only = ModelPrice::from_parts(number("2.0"), number("6.0"), None, Some(true));
    assert!(
        flag_only.cached_price_configured,
        "an explicit flag wins even with cached_per_1k omitted"
    );
    assert_eq!(flag_only.cached_per_1k, number("0"));
}

#[test]
fn log_directories_are_told_apart_as_paths() {
    let config = config_with_no_upstreams(
        Some("/tmp//logs/./requests.jsonl".to_string()),
        Some("/tmp/logs/".to_string()),
    );
    assert_eq!(config.log_paths(), vec!["/tmp//logs/./requests.jsonl".to_string()]);
    let dirs = config.debug_log_dirs();
    assert_eq!(dirs.len(), 1, "{dirs:?}");
    assert_eq!(std::path::Path::new(&dirs[0]), std::path::Path::new("/tmp/logs"));

    let rooted = config_with_no_upstreams(Some("/".to_string()), Some("/turns".to_string()));
    assert_eq!(rooted.debug_log_dirs(), vec!["/turns".to_string()]);
    let apart = config_with_no_upstreams(Some("a/b.log".to_string()), Some("./a".to_string()));
    assert_eq!(apart.debug_log_dirs(), vec!["a".to_string(), "./a".to_string()]);
}

#[test]
fn directories_follow_from_parents() {
    assert_eq!(dir_of_parent(Some("/a".to_string())), Some("/a".to_string()));
    assert_eq!(dir_of_parent(Some(String::new())), Some(".".to_string()));
    assert_eq!(dir_of_parent(None), None);
    let mut dirs = vec!["/a".to_string()];
    list_dir(&mut dirs, "/b", false);
    list_dir(&mut dirs, "/a", true);
    assert_eq!(dirs, vec!["/a".to_string(), "/b".to_string()]);
    assert!(is_toml_extension(Some("ToML")));
    assert!(!is_toml_extension(Some("yaml")));
    assert!(!is_toml_extension(None));
    assert_eq!(writable_place("p", false, Some("d".to_string())), Ok("d".to_string()));
    assert_eq!(writable_place("p", false, None), Err("config path has no parent: p".to_string()));
    assert!(writable_place("p", true, Some("d".to_string())).is_err());
}

#[test]
fn toml_paths_are_told_by_their_extension() {
    assert!(path_is_toml("/etc/llmconduit/config.toml"));
    assert!(path_is_toml("config.TOML"));
    assert!(!path_is_toml("config.yaml"));
    assert!(!path_is_toml("toml"));
    assert!(!path_is_toml(".toml"));
    assert!(!path_is_toml("dir.toml/config"));
    assert!(path_is_toml("a/config.toml/"));
    assert!(!path_is_toml("a.toml/.."));
    assert!(!path_is_toml("config.toml.bak"));
}

#[test]
fn toml_files_are_not_written() {
    assert_eq!(writable_parent("/etc/llmconduit/config.yaml"), Ok("/etc/llmconduit".to_string()));
    assert_eq!(writable_parent("config.yaml"), Ok(String::new()));
    let error = writable_parent("/etc/config.toml").expect_err("read-only");
    assert!(error.contains("/etc/config.toml") && error.contains("read-only"), "{error}");
    assert_eq!(writable_parent("/"), Err("config path has no parent: /".to_string()));
}

#[test]
fn removed_settings_name_their_replacement() {
    let gone = || Some(json("true"));
    let base = PersistedConfig::default;
    let cases = vec![
        (PersistedConfig { upstream_base_url: gone(), ..base() }, "upstream_base_url"),
        (PersistedConfig { upstream_api_key: gone(), ..base() }, "upstream_api_key"),
        (PersistedConfig { upstream_model: gone(), ..base() }, "upstream_model"),
        (PersistedConfig { fallback_upstreams: gone(), ..base() }, "fallback_upstreams"),
        (PersistedConfig { model_routes: gone(), ..base() }, "model_routes"),
        (PersistedConfig { image_agent_enabled: gone(), ..base() }, "image_agent_enabled"),
        (PersistedConfig { vision_url: gone(), ..base() }, "vision_url"),
        (PersistedConfig { vision_model: gone(), ..base() }, "vision_model"),
        (
            PersistedConfig { unsupported_image_policy: gone(), ..base() },
            "unsupported_image_policy",
        ),
    ];
    for (config, name) in cases {
        let error = reject_removed_global_knobs(&config).expect_err(name);
        assert!(error.starts_with(&format!("`{name}` was removed; ")), "{error}");
        assert!(error.ends_with(" (see README \"Migrating\")"), "{error}");
        assert_eq!(from_persisted(&config).err(), Some(error));
    }
    assert!(reject_removed_global_knobs(&base()).is_ok());
}

#[test]
fn addresses_are_checked() {
    let config = PersistedConfig::default();
    assert_eq!(
        Config::from_persisted(&config, Err("no address".to_string()), &no_env()).err(),
        Some("invalid bind_addr: no address".to_string())
    );
    let error = from_persisted(&PersistedConfig {
        brave_base_url: "no url".to_string(),
        ..PersistedConfig::default()
    })
    .expect_err("brave url");
    assert!(error.starts_with("invalid brave_base_url: "), "{error}");
    let error = from_persisted(&PersistedConfig {
        upstreams: vec![upstream("a", "http://h/v1"), upstream("b", "h")],
        ..PersistedConfig::default()
    })
    .expect_err("upstream url");
    assert!(error.starts_with("invalid upstreams[1].url: "), "{error}");
}

#[test]
fn addresses_are_brought_into_their_usual_form() {
    let config = from_persisted(&config_with_one_upstream(upstream("a", "HTTP://Host:80/v1/../x")))
        .expect("config");
    assert_eq!(config.upstreams[0].url, "http://host/x");
}

#[test]
fn upstreams_are_named_once() {
    let urls = || vec![Ok("http://a/".to_string()), Ok("http://b/".to_string())];
    assert_eq!(
        upstreams_with_urls(
            &vec![upstream("a", ""), upstream(" A ", "")],
            &urls(),
            &no_env()
        ),
        Err("upstreams[1]: duplicate upstream name \"A\"".to_string())
    );
    assert_eq!(
        upstreams_with_urls(&vec![upstream("a", ""), upstream("  ", "")], &urls(), &no_env()),
        Err("upstreams[1]: name must not be blank".to_string())
    );
    let upstreams =
        upstreams_with_urls(&vec![upstream("a", ""), upstream("b", "")], &urls(), &no_env())
            .expect("upstreams");
    assert_eq!(upstreams[1].url, "http://b/");
    let removed = PersistedUpstream { upstream_model: Some(json("1")), ..upstream("a", "") };
    let error = upstreams_with_urls(&vec![removed], &vec![Ok(String::new())], &no_env())
        .expect_err("removed");
    assert!(error.starts_with("upstreams[a]: `upstream_model` was removed"), "{error}");
}

fn rejected(profiles: OrderedModelProfiles) -> String {
    from_persisted(&PersistedConfig {
        upstreams: vec![upstream("one", "http://h/v1"), upstream("two", "http://h/v1")],
        model_profiles: profiles,
        ..PersistedConfig::default()
    })
    .expect_err("rejected")
}

fn handing_images_to(model: &str) -> PersistedModelProfile {
    PersistedModelProfile {
        image_analysis: Some(ImageAnalysisConfig {
            model: model.to_string(),
            residual_images: ResidualImagePolicy::Placeholder,
        }),
        ..profile("one")
    }
}

fn falling_back_to(upstreams: &[&str]) -> PersistedModelProfile {
    PersistedModelProfile {
        fallbacks: Some(upstreams.iter().map(|name| fallback(name, None)).collect()),
        ..profile("one")
    }
}

#[test]
fn references_to_what_does_not_exist_are_rejected() {
    assert_eq!(
        rejected(profiles(vec![("m", PersistedModelProfile::default())])),
        "model_profiles[m]: `upstream` is required"
    );
    assert_eq!(
        rejected(profiles(vec![("m", profile("three"))])),
        "model_profiles[m]: unknown upstream \"three\""
    );
    assert_eq!(
        rejected(profiles(vec![("m", falling_back_to(&["ONE"]))])),
        "model_profiles[m]: fallback \"ONE\" is the primary upstream"
    );
    assert_eq!(
        rejected(profiles(vec![("m", falling_back_to(&["three"]))])),
        "model_profiles[m]: unknown upstream \"three\" in fallbacks"
    );
    assert_eq!(
        rejected(profiles(vec![("m", falling_back_to(&["two", " Two"]))])),
        "model_profiles[m]: duplicate fallback upstream \" Two\""
    );
    assert_eq!(
        rejected(profiles(vec![("m", handing_images_to("M"))])),
        "model_profiles[m]: image_analysis cannot redirect to itself"
    );
    assert_eq!(
        rejected(profiles(vec![("m", handing_images_to("n")), ("n", handing_images_to("m"))])),
        "model_profiles[m]: image_analysis target \"n\" itself sets image_analysis"
    );
    assert_eq!(
        rejected(profiles(vec![("m", handing_images_to("v*")), ("v*", profile("one"))])),
        "model_profiles[m]: image_analysis target \"v*\" is a glob profile"
    );
    assert_eq!(
        rejected(profiles(vec![("m", handing_images_to("n"))])),
        "model_profiles[m]: unknown image_analysis target \"n\""
    );
    assert!(rejected(profiles(vec![])).starts_with("`model_profiles` is empty;"));
    assert!(rejected(profiles(vec![("  ", profile("one"))])).starts_with("`model_profiles` is"));
    assert_eq!(
        rejected(profiles(vec![("m[", profile("one"))])),
        "model_profiles[m[]: unterminated character class in glob \"m[\""
    );
    let removed = PersistedModelProfile { native_vision: Some(json("true")), ..profile("one") };
    assert!(rejected(profiles(vec![("m", removed)])).contains("`native_vision` was removed"));
}

#[test]
fn names_go_before_patterns_and_patterns_in_order() {
    let config = from_persisted(&PersistedConfig {
        upstreams: vec![upstream("one", "http://h/v1"), upstream("two", "http://h/v1")],
        model_profiles: profiles(vec![
            ("glm-*", profile("one")),
            ("*", profile("two")),
            ("GLM-4", profile("two")),
        ]),
        ..PersistedConfig::default()
    })
    .expect("config");
    let route = config.resolve_route(" glm-4 ").expect("route");
    assert_eq!(route.profile_key, "GLM-4");
    assert_eq!(route.served_model, "GLM-4");
    assert!(!route.matched_glob);
    let route = config.resolve_route("GLM-5").expect("route");
    assert_eq!(route.profile_key, "glm-*");
    assert_eq!(route.served_model, "GLM-5");
    assert!(route.matched_glob);
    assert_eq!(route.profile.upstream, "one");
    let route = config.resolve_route("other").expect("route");
    assert_eq!(route.profile_key, "*");
    assert!(config.resolve_route("  ").is_none());
    assert_eq!(config.exact_profile_keys(), vec!["GLM-4".to_string()]);
    assert_eq!(
        config.upstream_by_name(" TWO ").map(|upstream| upstream.name.as_str()),
        Some("two")
    );
    assert!(config.upstream_by_name("three").is_none());
}

#[test]
fn blank_models_need_a_pattern_with_a_target() {
    let with = |upstream_model: Option<&str>| {
        from_persisted(&PersistedConfig {
            upstreams: backend_upstreams(),
            model_profiles: profiles(vec![(
                "*",
                PersistedModelProfile {
                    upstream_model: upstream_model.map(str::to_string),
                    ..profile("backend")
                },
            )]),
            ..PersistedConfig::default()
        })
        .expect("config")
    };
    assert!(with(None).resolve_route("").is_none());
    assert_eq!(
        with(Some("target")).resolve_route("").map(|route| route.served_model),
        Some("target".to_string())
    );
}

fn compiled(key: &str, pattern: bool) -> CompiledProfile {
    CompiledProfile {
        key: key.to_string(),
        glob: if pattern { compile_model_glob(key).expect("pattern") } else { None },
        profile: ModelProfile {
            upstream: "u".to_string(),
            upstream_model: None,
            system_prompt_prefix: None,
            roles: None,
            template_family: None,
            upstream_chat_kwargs: Vec::new(),
            reasoning_effort_map: TextMap::new(),
            reasoning_effort_default: None,
            capabilities: None,
            reasoning_effort: None,
            fallbacks: Vec::new(),
            image_analysis: None,
        },
    }
}

#[test]
fn first_hit_is_selected() {
    let profiles = vec![compiled("a*", true), compiled("b*", true), compiled("c", false)];
    let key = |hits: [bool; 3], model: &str| {
        select_route(&profiles, &hits.to_vec(), model).map(|route| route.profile_key.to_string())
    };
    assert_eq!(key([false, true, false], "x"), Some("b*".to_string()));
    assert_eq!(key([true, true, false], "x"), Some("a*".to_string()));
    assert_eq!(key([true, true, false], "C"), Some("c".to_string()));
    assert_eq!(key([false, false, false], "x"), None);
}

#[test]
fn patterns_match_whole_names_in_any_case() {
    let matches = |pattern: &str, name: &str| {
        compile_model_glob(pattern)
            .expect("pattern")
            .map(|glob| glob.is_match(name))
    };
    assert_eq!(matches("glm-?", "GLM-4"), Some(true));
    assert_eq!(matches("glm-?", "glm-45"), Some(false));
    assert_eq!(matches("a.b*", "a.b"), Some(true));
    assert_eq!(matches("a.b*", "axb"), Some(false));
    assert_eq!(matches("v[1-3]", "v2"), Some(true));
    assert_eq!(matches("v[!1-3]", "v2"), Some(false));
    assert_eq!(matches("v[]]", "v]"), Some(true));
    assert_eq!(matches("plain", "plain"), None);
    assert!(is_glob_pattern("a[b") && !is_glob_pattern("a]b"));
    assert!(compile_model_glob("a[b").is_err());
    let error = glob_to_regex("v[z-a]").expect_err("invalid");
    assert!(error.starts_with("invalid glob \"v[z-a]\": "), "{error}");
}

#[test]
fn profiles_keep_their_place_when_they_are_declared_again() {
    let mut declared = OrderedModelProfiles(Vec::new());
    assert!(declared.is_empty());
    declared.upsert("A".to_string(), profile("one"));
    declared.upsert("B".to_string(), profile("one"));
    declared.upsert(" a ".to_string(), profile("two"));
    assert_eq!(
        declared,
        profiles(vec![(" a ", profile("two")), ("B", profile("one"))])
    );
}

fn supporting_images(supported: bool) -> CapabilitiesConfig {
    CapabilitiesConfig {
        batch: None,
        citations: None,
        code_execution: None,
        image_input: Some(SimpleCap { supported }),
        pdf_input: None,
        structured_outputs: None,
        thinking: None,
        effort: None,
        context_management: None,
    }
}

#[test]
fn capabilities_come_from_name_alias_or_catch_all() {
    let with = |upstream_model: Option<&str>, supported: bool| PersistedModelProfile {
        upstream_model: upstream_model.map(str::to_string),
        capabilities: Some(supporting_images(supported)),
        ..profile("backend")
    };
    let config = from_persisted(&PersistedConfig {
        upstreams: backend_upstreams(),
        model_profiles: profiles(vec![
            ("*", with(None, false)),
            ("alias", with(Some("Served"), true)),
            ("plain", profile("backend")),
        ]),
        ..PersistedConfig::default()
    })
    .expect("config");
    let images = |id: &str| {
        config
            .resolve_capabilities_for_upstream(id)
            .and_then(|capabilities| capabilities.image_input.as_ref())
            .map(|cap| cap.supported)
    };
    assert_eq!(images("served"), Some(true));
    assert_eq!(images("ALIAS"), Some(true));
    assert_eq!(images("plain"), None);
    assert_eq!(images("unknown"), Some(false));
}

#[test]
fn configured_capability_replaces_the_advertised_one() {
    let base = json(r#"{ "batch": {"supported": true}, "image_input": {"supported": true} }"#);
    assert_eq!(
        render_json(&supporting_images(false).merge_into(base)),
        r#"{"batch":{"supported":true},"image_input":{"supported":false}}"#
    );
    assert_eq!(supporting_images(false).merge_into(json("1")), json("1"));
}

#[test]
fn roles_come_from_the_profile_that_serves() {
    let config = from_persisted(&PersistedConfig {
        upstreams: backend_upstreams(),
        model_profiles: profiles(vec![
            (
                "m",
                PersistedModelProfile {
                    roles: Some(roles_config(&["user"], &["user"])),
                    ..profile("backend")
                },
            ),
            ("*", profile("backend")),
        ]),
        ..PersistedConfig::default()
    })
    .expect("config");
    assert!(config.resolve_roles_config("M").is_some());
    assert!(config.resolve_roles_config("n").is_none());
}

#[test]
fn limits_have_a_floor() {
    let config = from_persisted(&PersistedConfig {
        min_completion_tokens: -5,
        max_sse_frame_bytes: 0,
        max_request_body_bytes: 1,
        image_cache_max_size: 0,
        ..PersistedConfig::default()
    })
    .expect("config");
    assert_eq!(config.min_completion_tokens, 1);
    assert_eq!(config.max_sse_frame_bytes, 1024);
    assert_eq!(config.max_request_body_bytes, 1024);
    assert_eq!(config.image_cache_max_size, 1);
    assert_eq!(config.request_timeout, TimeSpan { secs: 60, nanos: 0 });
}

#[test]
fn patterns_are_translated() {
    let source = |pattern: &str| translate_glob(pattern);
    assert_eq!(source("a*b?").as_deref(), Some("(?i)^a.*b.$"));
    assert_eq!(source("v1.5+").as_deref(), Some(r"(?i)^v1\.5\+$"));
    assert_eq!(source("[!a^]").as_deref(), Some(r"(?i)^[^a\^]$"));
    assert_eq!(source("[]x]").as_deref(), Some(r"(?i)^[\]x]$"));
    assert_eq!(source("[x"), None);
}

#[test]
fn effort_policies_of_patterns_keep_their_order() {
    let with = |level: &str| PersistedModelProfile {
        reasoning_effort_map: fragments(&[(level, "{}")]),
        ..profile("backend")
    };
    let config = from_persisted(&PersistedConfig {
        upstreams: backend_upstreams(),
        model_profiles: profiles(vec![
            ("b*", with("low")),
            ("a*", with("high")),
            ("named", with("max")),
            ("plain*", profile("backend")),
        ]),
        ..PersistedConfig::default()
    })
    .expect("config");
    let globs = config.reasoning_effort_policy_globs();
    assert_eq!(globs.len(), 2);
    assert!(globs[0].0.is_match("b1") && globs[0].1.map.contains_key("low"));
    assert!(globs[1].0.is_match("a1") && globs[1].1.map.contains_key("high"));
    assert!(config.reasoning_effort_policies().contains_key("named"));
}

#[test]
fn first_policy_for_a_model_stays() {
    let config = from_persisted(&PersistedConfig {
        upstreams: backend_upstreams(),
        model_profiles: profiles(vec![
            ("one", family_profile("kimi", Some("served"))),
            ("two", family_profile("deepseek", Some("served"))),
        ]),
        ..PersistedConfig::default()
    })
    .expect("config");
    assert_eq!(leaf_family(&config, "served").as_deref(), Some("kimi"));
}

#[test]
fn default_level_is_translated_where_the_client_asks_for_it() {
    let mut map = TextMap::new();
    map.insert("low".to_string(), "high".to_string());
    let mut profile = compiled("m", false).profile;
    profile.reasoning_effort = Some(ReasoningConfig {
        default: Some("low".to_string()),
        map,
        ..ReasoningConfig::default()
    });
    let policy = reasoning_effort_policy_of(&profile).expect("policy");
    assert_eq!(
        policy.map.get("low").map(render_json).as_deref(),
        Some(r#"{"reasoning_effort":"high"}"#)
    );
    assert_eq!(
        policy.unasked_fragment().as_ref().map(render_json).as_deref(),
        Some(r#"{"reasoning_effort":"low"}"#)
    );
}

#[test]
fn default_level_of_a_free_map_is_sent_as_mapped() {
    let mut profile = compiled("m", false).profile;
    profile.reasoning_effort_map = fragments(&[("max", r#"{"x": 1}"#)]);
    profile.reasoning_effort_default = Some(" MAX ".to_string());
    let policy = reasoning_effort_policy_of(&profile).expect("policy");
    assert_eq!(
        policy.unasked_fragment().as_ref().map(render_json).as_deref(),
        Some(r#"{"x":1}"#)
    );
}
