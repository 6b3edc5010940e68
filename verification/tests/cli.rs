use llmconduit::cli::{
    configure, configure_defaults, resolve_config_path, Cli, Commands, ConfigureAnswers,
};
use llmconduit::config::persisted::PersistedConfig;
use llmconduit::config::profile::{OrderedModelProfiles, PersistedModelProfile};
use llmconduit::config::upstream::PersistedUpstream;
use llmconduit::config::Config;
use llmconduit::collections::TextMap;
use llmconduit::json::{parse_json, render_json, Json};

fn answers() -> ConfigureAnswers {
    ConfigureAnswers {
        bind_addr: "0.0.0.0:4000".to_string(),
        upstream_base_url: "http://h:8000/v1".to_string(),
        keep_api_key: false,
        api_key: "  ".to_string(),
        upstream_model: String::new(),
        upstream_request_log_path: " ".to_string(),
        upstream_chat_kwargs: String::new(),
        brave_base_url: "https://brave".to_string(),
        brave_api_key: "key ".to_string(),
        brave_max_results: 3,
        request_timeout_secs: 90,
    }
}

fn stored() -> PersistedConfig {
    let mut config = PersistedConfig::default();
    config.upstreams[0].url = "http://stored/v1".to_string();
    config.upstreams[0].api_key = Some("stored-key".to_string());
    config.upstreams.push(PersistedUpstream::minimal("http://other/v1".to_string()));
    config.model_profiles.0.insert(
        0,
        ("first".to_string(), PersistedModelProfile::default()),
    );
    config.model_profiles.0[1].1.upstream_model = Some("stored-model".to_string());
    config.turn_capture_dir = Some("/tmp/turns".to_string());
    config.model_routes = Some(Json::Bool(true));
    match parse_json(r#"{"b": 1, "a": {}}"#) {
        Ok(Json::Object(entries)) => config.upstream_chat_kwargs = entries,
        other => panic!("not an object: {other:?}"),
    }
    config
}

#[test]
fn given_path_goes_before_the_default() {
    assert_eq!(
        resolve_config_path(Some("mine.yaml".to_string()), Ok("default.yaml".to_string())),
        Ok("mine.yaml".to_string())
    );
    assert_eq!(
        resolve_config_path(None, Ok("default.yaml".to_string())),
        Ok("default.yaml".to_string())
    );
    assert_eq!(
        resolve_config_path(Some("mine.yaml".to_string()), Err("none".to_string())),
        Ok("mine.yaml".to_string())
    );
    assert_eq!(
        resolve_config_path(None, Err("none".to_string())),
        Err("none".to_string())
    );
}

#[test]
fn questions_are_prefilled_with_what_is_stored() {
    let defaults = configure_defaults(&stored());
    assert_eq!(defaults.upstream_base_url, "http://stored/v1");
    assert!(defaults.has_api_key);
    assert_eq!(defaults.upstream_model, "stored-model");
    assert_eq!(defaults.upstream_request_log_path, "");
    assert_eq!(defaults.upstream_chat_kwargs, r#"{"a":{},"b":1}"#);
    let defaults = configure_defaults(&PersistedConfig::default());
    assert_eq!(defaults.upstream_base_url, "http://127.0.0.1:8000/v1");
    assert!(!defaults.has_api_key);
    assert_eq!(defaults.upstream_chat_kwargs, "");
}

#[test]
fn flow_writes_one_upstream_and_one_profile() {
    let config = configure(&stored(), &answers()).expect("config");
    assert_eq!(config.upstreams.len(), 1);
    assert_eq!(config.upstreams[0].name, "default");
    assert_eq!(config.upstreams[0].url, "http://h:8000/v1");
    assert_eq!(config.upstreams[0].api_key, None);
    assert_eq!(config.model_profiles, OrderedModelProfiles::minimal());
    assert_eq!(config.model_routes, None);
    assert_eq!(config.upstream_request_log_path, None);
    assert!(config.upstream_chat_kwargs.is_empty());
    assert_eq!(config.brave_api_key.as_deref(), Some("key "));
    assert_eq!(config.turn_capture_dir.as_deref(), Some("/tmp/turns"));
    assert_eq!(config.request_timeout_secs, 90);
    let taken = Config::from_persisted(&config, Ok(config.bind_addr.clone()), &TextMap::new());
    assert_eq!(taken.expect("sound").resolve_upstream_model("any"), "any");
}

#[test]
fn flow_is_settled_after_once() {
    let once = configure(&stored(), &answers()).expect("once");
    let twice = configure(&once, &answers()).expect("twice");
    assert_eq!(once, twice);
}

#[test]
fn stored_key_is_kept_only_if_asked_for() {
    let keep = ConfigureAnswers { keep_api_key: true, ..answers() };
    let config = configure(&stored(), &keep).expect("config");
    assert_eq!(config.upstreams[0].api_key.as_deref(), Some("stored-key"));
    let anew = ConfigureAnswers { api_key: "new".to_string(), ..answers() };
    let config = configure(&stored(), &anew).expect("config");
    assert_eq!(config.upstreams[0].api_key.as_deref(), Some("new"));
}

#[test]
fn arguments_have_to_be_an_object() {
    let given = |text: &str| ConfigureAnswers { upstream_chat_kwargs: text.to_string(), ..answers() };
    let config = configure(&stored(), &given(r#"{"x": [1]}"#)).expect("config");
    assert_eq!(
        render_json(&Json::Object(config.upstream_chat_kwargs)),
        r#"{"x":[1]}"#
    );
    for text in ["[1]", "{", "1"] {
        let error = configure(&stored(), &given(text)).expect_err(text);
        assert!(error.starts_with("invalid upstream chat kwargs JSON: "), "{error}");
    }
}

#[test]
fn command_lines_hold_what_was_given() {
    let cli = Cli {
        with_debug_ui: true,
        command: Some(Commands::AnalyzeLog {
            config: None,
            path: Some("log.jsonl".to_string()),
            pairs: 10,
        }),
    };
    assert!(matches!(
        cli.command,
        Some(Commands::AnalyzeLog { pairs: 10, .. })
    ));
}
