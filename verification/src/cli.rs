//! The command line and the configuration flow.
use vstd::prelude::*;

use crate::config::persisted::{
    default_upstream, removed_setting, PersistedConfig, PersistedConfigView,
    DEFAULT_UPSTREAM_BASE_URL,
};
use crate::config::profile::{
    empty_profile, profile_place, OrderedModelProfiles, PersistedModelProfile,
    PersistedModelProfileView,
};
use crate::config::upstream::{PersistedUpstream, PersistedUpstreamView};
use crate::duplicate::Duplicate;
use crate::error::outcome;
use crate::json::{
    json_rendered, lemma_object_model, map_of, object_parsed, parse_object, render_json, Json,
    JsonMap, JsonView,
};
use crate::text::trimmed;

verus! {

/// What the program is asked to do.
#[derive(Debug, PartialEq)]
pub enum Commands {
    Start { config: Option<String>, raw: bool },
    Configure { config: Option<String> },
    AnalyzeLog {
        config: Option<String>,
        path: Option<String>,
        pairs: usize,
    },
}

/// The model of [`Commands`].
pub enum CommandsView {
    Start { config: Option<Seq<char>>, raw: bool },
    Configure { config: Option<Seq<char>> },
    AnalyzeLog {
        config: Option<Seq<char>>,
        path: Option<Seq<char>>,
        pairs: usize,
    },
}

impl DeepView for Commands {
    type V = CommandsView;

    open spec fn deep_view(&self) -> CommandsView {
        match self {
            Commands::Start { config, raw } => CommandsView::Start {
                config: config.deep_view(),
                raw: *raw,
            },
            Commands::Configure { config } => CommandsView::Configure {
                config: config.deep_view(),
            },
            Commands::AnalyzeLog { config, path, pairs } => CommandsView::AnalyzeLog {
                config: config.deep_view(),
                path: path.deep_view(),
                pairs: *pairs,
            },
        }
    }
}

impl Duplicate for Commands {
    fn duplicate(&self) -> (copy: Self) {
        match self {
            Commands::Start { config, raw } => Commands::Start {
                config: config.duplicate(),
                raw: *raw,
            },
            Commands::Configure { config } => Commands::Configure {
                config: config.duplicate(),
            },
            Commands::AnalyzeLog { config, path, pairs } => Commands::AnalyzeLog {
                config: config.duplicate(),
                path: path.duplicate(),
                pairs: *pairs,
            },
        }
    }
}

/// The command line of the program.
#[derive(Debug, PartialEq)]
pub struct Cli {
    pub with_debug_ui: bool,
    pub command: Option<Commands>,
}

/// The model of [`Cli`].
pub struct CliView {
    pub with_debug_ui: bool,
    pub command: Option<CommandsView>,
}

impl DeepView for Cli {
    type V = CliView;

    open spec fn deep_view(&self) -> CliView {
        CliView {
            with_debug_ui: self.with_debug_ui,
            command: self.command.deep_view(),
        }
    }
}

impl Duplicate for Cli {
    fn duplicate(&self) -> (copy: Self) {
        Cli {
            with_debug_ui: self.with_debug_ui,
            command: self.command.duplicate(),
        }
    }
}

/// What the questions of the configuration flow are answered with by default.
#[derive(Debug, PartialEq)]
pub struct ConfigureDefaults {
    pub bind_addr: String,
    pub upstream_base_url: String,
    pub has_api_key: bool,
    pub upstream_model: String,
    pub upstream_request_log_path: String,
    pub upstream_chat_kwargs: String,
    pub brave_base_url: String,
    pub brave_max_results: usize,
    pub request_timeout_secs: u64,
}

/// The model of [`ConfigureDefaults`].
pub struct ConfigureDefaultsView {
    pub bind_addr: Seq<char>,
    pub upstream_base_url: Seq<char>,
    pub has_api_key: bool,
    pub upstream_model: Seq<char>,
    pub upstream_request_log_path: Seq<char>,
    pub upstream_chat_kwargs: Seq<char>,
    pub brave_base_url: Seq<char>,
    pub brave_max_results: usize,
    pub request_timeout_secs: u64,
}

impl DeepView for ConfigureDefaults {
    type V = ConfigureDefaultsView;

    open spec fn deep_view(&self) -> ConfigureDefaultsView {
        ConfigureDefaultsView {
            bind_addr: self.bind_addr@,
            upstream_base_url: self.upstream_base_url@,
            has_api_key: self.has_api_key,
            upstream_model: self.upstream_model@,
            upstream_request_log_path: self.upstream_request_log_path@,
            upstream_chat_kwargs: self.upstream_chat_kwargs@,
            brave_base_url: self.brave_base_url@,
            brave_max_results: self.brave_max_results,
            request_timeout_secs: self.request_timeout_secs,
        }
    }
}

impl Duplicate for ConfigureDefaults {
    fn duplicate(&self) -> (copy: Self) {
        ConfigureDefaults {
            bind_addr: self.bind_addr.clone(),
            upstream_base_url: self.upstream_base_url.clone(),
            has_api_key: self.has_api_key,
            upstream_model: self.upstream_model.clone(),
            upstream_request_log_path: self.upstream_request_log_path.clone(),
            upstream_chat_kwargs: self.upstream_chat_kwargs.clone(),
            brave_base_url: self.brave_base_url.clone(),
            brave_max_results: self.brave_max_results,
            request_timeout_secs: self.request_timeout_secs,
        }
    }
}

/// The answers to the questions of the configuration flow.
#[derive(Debug, PartialEq)]
pub struct ConfigureAnswers {
    pub bind_addr: String,
    pub upstream_base_url: String,
    pub keep_api_key: bool,
    pub api_key: String,
    pub upstream_model: String,
    pub upstream_request_log_path: String,
    pub upstream_chat_kwargs: String,
    pub brave_base_url: String,
    pub brave_api_key: String,
    pub brave_max_results: usize,
    pub request_timeout_secs: u64,
}

/// The model of [`ConfigureAnswers`].
pub struct ConfigureAnswersView {
    pub bind_addr: Seq<char>,
    pub upstream_base_url: Seq<char>,
    pub keep_api_key: bool,
    pub api_key: Seq<char>,
    pub upstream_model: Seq<char>,
    pub upstream_request_log_path: Seq<char>,
    pub upstream_chat_kwargs: Seq<char>,
    pub brave_base_url: Seq<char>,
    pub brave_api_key: Seq<char>,
    pub brave_max_results: usize,
    pub request_timeout_secs: u64,
}

impl DeepView for ConfigureAnswers {
    type V = ConfigureAnswersView;

    open spec fn deep_view(&self) -> ConfigureAnswersView {
        ConfigureAnswersView {
            bind_addr: self.bind_addr@,
            upstream_base_url: self.upstream_base_url@,
            keep_api_key: self.keep_api_key,
            api_key: self.api_key@,
            upstream_model: self.upstream_model@,
            upstream_request_log_path: self.upstream_request_log_path@,
            upstream_chat_kwargs: self.upstream_chat_kwargs@,
            brave_base_url: self.brave_base_url@,
            brave_api_key: self.brave_api_key@,
            brave_max_results: self.brave_max_results,
            request_timeout_secs: self.request_timeout_secs,
        }
    }
}

impl Duplicate for ConfigureAnswers {
    fn duplicate(&self) -> (copy: Self) {
        ConfigureAnswers {
            bind_addr: self.bind_addr.clone(),
            upstream_base_url: self.upstream_base_url.clone(),
            keep_api_key: self.keep_api_key,
            api_key: self.api_key.clone(),
            upstream_model: self.upstream_model.clone(),
            upstream_request_log_path: self.upstream_request_log_path.clone(),
            upstream_chat_kwargs: self.upstream_chat_kwargs.clone(),
            brave_base_url: self.brave_base_url.clone(),
            brave_api_key: self.brave_api_key.clone(),
            brave_max_results: self.brave_max_results,
            request_timeout_secs: self.request_timeout_secs,
        }
    }
}

/// The path of the configuration file: the given one, or else the default.
pub fn resolve_config_path(path: Option<String>, default: Result<String, String>) -> (result: Result<
    String,
    String,
>)
    ensures
        outcome(result) == match path {
            Some(path) => Ok(path@),
            None => outcome(default),
        },
{
    match path {
        Some(path) => Ok(path),
        None => default,
    }
}

// ---------------------------------------------------------------------------------------------
// The configuration flow
// ---------------------------------------------------------------------------------------------

/// `text`, unless it is blank.
pub open spec fn unless_blank(text: Seq<char>) -> Option<Seq<char>> {
    if trimmed(text).len() > 0 {
        Some(text)
    } else {
        None
    }
}

/// The text that there is, or else the empty one.
pub open spec fn or_empty(text: Option<Seq<char>>) -> Seq<char> {
    match text {
        Some(text) => text,
        None => Seq::empty(),
    }
}

/// The key of the first upstream.
pub open spec fn stored_key(config: PersistedConfigView) -> Option<Seq<char>> {
    if config.upstreams.len() > 0 {
        config.upstreams[0].api_key
    } else {
        None
    }
}

/// The model that the profile for everything is served by.
pub open spec fn stored_model(config: PersistedConfigView) -> Option<Seq<char>> {
    let place = profile_place(config.model_profiles, "*"@) as int;
    if place < config.model_profiles.len() {
        config.model_profiles[place].1.upstream_model
    } else {
        None
    }
}

/// What the questions are answered with by default: what is stored.
pub open spec fn prefilled(config: PersistedConfigView) -> ConfigureDefaultsView {
    ConfigureDefaultsView {
        bind_addr: config.bind_addr,
        upstream_base_url: if config.upstreams.len() > 0 {
            config.upstreams[0].url
        } else {
            "http://127.0.0.1:8000/v1"@
        },
        has_api_key: stored_key(config) is Some,
        upstream_model: or_empty(stored_model(config)),
        upstream_request_log_path: or_empty(config.upstream_request_log_path),
        upstream_chat_kwargs: if config.upstream_chat_kwargs == Map::<
            Seq<char>,
            JsonView,
        >::empty() {
            Seq::empty()
        } else {
            json_rendered(JsonView::Object(config.upstream_chat_kwargs))
        },
        brave_base_url: config.brave_base_url,
        brave_max_results: config.brave_max_results,
        request_timeout_secs: config.request_timeout_secs,
    }
}

/// The key that the upstream gets: the stored one if it is kept, else the one that was given.
pub open spec fn chosen_key(config: PersistedConfigView, answers: ConfigureAnswersView) -> Option<
    Seq<char>,
> {
    if answers.keep_api_key && stored_key(config) is Some {
        stored_key(config)
    } else {
        unless_blank(answers.api_key)
    }
}

/// The configuration after the flow: one upstream and one profile that sends everything to it, the
/// other answers, and for the rest what was stored.
pub open spec fn answered(
    config: PersistedConfigView,
    answers: ConfigureAnswersView,
    kwargs: Map<Seq<char>, JsonView>,
) -> PersistedConfigView {
    PersistedConfigView {
        bind_addr: answers.bind_addr,
        upstream_base_url: None,
        upstream_api_key: None,
        upstream_model: None,
        upstream_request_log_path: unless_blank(answers.upstream_request_log_path),
        upstream_chat_kwargs: kwargs,
        upstreams: seq![
            PersistedUpstreamView {
                api_key: chosen_key(config, answers),
                ..default_upstream(answers.upstream_base_url)
            },
        ],
        fallback_upstreams: None,
        model_profiles: seq![
            (
                "*"@,
                PersistedModelProfileView {
                    upstream: Some("default"@),
                    upstream_model: unless_blank(answers.upstream_model),
                    ..empty_profile()
                },
            ),
        ],
        model_routes: None,
        brave_base_url: answers.brave_base_url,
        brave_api_key: unless_blank(answers.brave_api_key),
        brave_max_results: answers.brave_max_results,
        request_timeout_secs: answers.request_timeout_secs,
        image_agent_enabled: None,
        vision_url: None,
        vision_model: None,
        unsupported_image_policy: None,
        ..config
    }
}

/// The arguments that the answer stands for, or why it stands for none.
pub open spec fn answered_kwargs(text: Seq<char>) -> Result<Map<Seq<char>, JsonView>, Seq<char>> {
    if trimmed(text).len() == 0 {
        Ok(Map::empty())
    } else {
        match object_parsed(text) {
            Ok(kwargs) => Ok(kwargs),
            Err(message) => Err("invalid upstream chat kwargs JSON: "@ + message),
        }
    }
}

fn non_blank(text: &String) -> (result: Option<String>)
    ensures
        result.deep_view() == unless_blank(text@),
{
    if text.as_str().trim().is_empty() {
        None
    } else {
        Some(text.clone())
    }
}

fn text_or_empty(text: &Option<String>) -> (result: String)
    ensures
        result@ == or_empty(text.deep_view()),
{
    match text {
        Some(text) => text.clone(),
        None => {
            let empty = String::new();
            assert(empty@ =~= Seq::<char>::empty());
            empty
        },
    }
}

fn find_stored_model(config: &PersistedConfig) -> (result: Option<String>)
    ensures
        result.deep_view() == stored_model(config.deep_view()),
{
    let place = config.model_profiles.place_of("*");
    if place < config.model_profiles.0.len() {
        let ghost models = config.model_profiles.0.deep_view();
        assert(models[place as int] == config.model_profiles.0@[place as int].deep_view());
        config.model_profiles.0[place].1.upstream_model.duplicate()
    } else {
        None
    }
}

/// What the questions of the configuration flow are answered with by default.
pub fn configure_defaults(existing: &PersistedConfig) -> (result: ConfigureDefaults)
    ensures
        result.deep_view() == prefilled(existing.deep_view()),
{
    let ghost upstreams = existing.upstreams.deep_view();
    let ghost kwargs = existing.upstream_chat_kwargs.deep_view();
    let upstream_base_url = if existing.upstreams.len() > 0 {
        assert(upstreams[0] == existing.upstreams@[0].deep_view());
        existing.upstreams[0].url.clone()
    } else {
        DEFAULT_UPSTREAM_BASE_URL.to_string()
    };
    let upstream_chat_kwargs = if existing.upstream_chat_kwargs.len() == 0 {
        let empty = String::new();
        assert(empty@ =~= Seq::<char>::empty());
        empty
    } else {
        broadcast use lemma_object_model;

        assert(map_of(kwargs).dom().contains(kwargs.last().0));
        render_json(&Json::Object(existing.upstream_chat_kwargs.duplicate()))
    };
    ConfigureDefaults {
        bind_addr: existing.bind_addr.clone(),
        upstream_base_url,
        has_api_key: existing.upstreams.len() > 0 && existing.upstreams[0].api_key.is_some(),
        upstream_model: text_or_empty(&find_stored_model(existing)),
        upstream_request_log_path: text_or_empty(&existing.upstream_request_log_path),
        upstream_chat_kwargs,
        brave_base_url: existing.brave_base_url.clone(),
        brave_max_results: existing.brave_max_results,
        request_timeout_secs: existing.request_timeout_secs,
    }
}

/// The configuration after the flow, with the keyword arguments that were read from their answer.
pub fn configured_with(existing: &PersistedConfig, answers: &ConfigureAnswers, kwargs: JsonMap) -> (result:
    PersistedConfig)
    ensures
        result.deep_view() == answered(
            existing.deep_view(),
            answers.deep_view(),
            map_of(kwargs.deep_view()),
        ),
{
    let ghost stored = existing.upstreams.deep_view();
    let api_key = if answers.keep_api_key && existing.upstreams.len() > 0
        && existing.upstreams[0].api_key.is_some() {
        assert(stored[0] == existing.upstreams@[0].deep_view());
        existing.upstreams[0].api_key.duplicate()
    } else {
        proof {
            if stored.len() > 0 {
                assert(stored[0] == existing.upstreams@[0].deep_view());
            }
        }
        non_blank(&answers.api_key)
    };
    let mut upstream = PersistedUpstream::minimal(answers.upstream_base_url.clone());
    upstream.api_key = api_key;
    let mut upstreams: Vec<PersistedUpstream> = Vec::new();
    upstreams.push(upstream);
    let mut profile = PersistedModelProfile::default();
    profile.upstream = Some("default".to_string());
    profile.upstream_model = non_blank(&answers.upstream_model);
    let mut profiles: Vec<(String, PersistedModelProfile)> = Vec::new();
    profiles.push(("*".to_string(), profile));
    let mut result = existing.duplicate();
    result.bind_addr = answers.bind_addr.clone();
    result.upstream_base_url = None;
    result.upstream_api_key = None;
    result.upstream_model = None;
    result.upstream_request_log_path = non_blank(&answers.upstream_request_log_path);
    result.upstream_chat_kwargs = kwargs;
    result.upstreams = upstreams;
    result.fallback_upstreams = None;
    result.model_profiles = OrderedModelProfiles(profiles);
    result.model_routes = None;
    result.brave_base_url = answers.brave_base_url.clone();
    result.brave_api_key = non_blank(&answers.brave_api_key);
    result.brave_max_results = answers.brave_max_results;
    result.request_timeout_secs = answers.request_timeout_secs;
    result.image_agent_enabled = None;
    result.vision_url = None;
    result.vision_model = None;
    result.unsupported_image_policy = None;
    proof {
        let expected = answered(
            existing.deep_view(),
            answers.deep_view(),
            map_of(result.upstream_chat_kwargs.deep_view()),
        );
        assert(result.deep_view().upstreams =~= expected.upstreams);
        assert(result.deep_view().model_profiles =~= expected.model_profiles);
    }
    result
}

/// The configuration after the flow, or why an answer cannot be taken.
pub fn configure(existing: &PersistedConfig, answers: &ConfigureAnswers) -> (result: Result<
    PersistedConfig,
    String,
>)
    ensures
        outcome(result) == match answered_kwargs(answers.upstream_chat_kwargs@) {
            Ok(kwargs) => Ok(answered(existing.deep_view(), answers.deep_view(), kwargs)),
            Err(message) => Err(message),
        },
{
    let kwargs: JsonMap = if answers.upstream_chat_kwargs.as_str().trim().is_empty() {
        Vec::new()
    } else {
        match parse_object(answers.upstream_chat_kwargs.as_str()) {
            Ok(kwargs) => kwargs,
            Err(err) => {
                let mut message = "invalid upstream chat kwargs JSON: ".to_string();
                message.push_str(err.as_str());
                return Err(message);
            },
        }
    };
    Ok(configured_with(existing, answers, kwargs))
}

/// The flow leaves one upstream and one profile, brings back no setting that is gone, and keeps the
/// templates, the prices and the limits that were stored.
pub proof fn law_flow_leaves_the_smallest_routing(
    config: PersistedConfigView,
    answers: ConfigureAnswersView,
    kwargs: Map<Seq<char>, JsonView>,
)
    ensures
        ({
            let after = answered(config, answers, kwargs);
            &&& after.upstreams.len() == 1
            &&& after.upstreams[0].name == "default"@
            &&& after.model_profiles.len() == 1
            &&& after.model_profiles[0].0 == "*"@
            &&& after.model_profiles[0].1.upstream == Some(after.upstreams[0].name)
            &&& removed_setting(after) is None
            &&& after.model_profile_templates == config.model_profile_templates
            &&& after.price_table == config.price_table
            &&& after.system_prompt_prefix == config.system_prompt_prefix
            &&& after.turn_capture_dir == config.turn_capture_dir
            &&& after.max_request_body_bytes == config.max_request_body_bytes
            &&& after.max_sse_frame_bytes == config.max_sse_frame_bytes
        }),
{
}

/// Running the flow again with the same answers changes nothing more.
pub proof fn law_flow_settles(
    config: PersistedConfigView,
    answers: ConfigureAnswersView,
    kwargs: Map<Seq<char>, JsonView>,
)
    ensures
        answered(answered(config, answers, kwargs), answers, kwargs) == answered(
            config,
            answers,
            kwargs,
        ),
{
}

/// What the flow was answered is what is configured then: the address, the upstream and its key, the
/// model, the log, the arguments and the search.
pub proof fn law_answers_hold(
    config: PersistedConfigView,
    answers: ConfigureAnswersView,
    kwargs: Map<Seq<char>, JsonView>,
)
    ensures
        ({
            let after = answered(config, answers, kwargs);
            let profile = after.model_profiles[0].1;
            &&& after.bind_addr == answers.bind_addr
            &&& after.upstreams[0].url == answers.upstream_base_url
            &&& after.upstreams[0].api_key_env is None
            &&& answers.keep_api_key && config.upstreams.len() > 0 && config.upstreams[0].api_key
                is Some ==> after.upstreams[0].api_key == config.upstreams[0].api_key
            &&& !answers.keep_api_key && trimmed(answers.api_key).len() > 0
                ==> after.upstreams[0].api_key == Some(answers.api_key)
            &&& !answers.keep_api_key && trimmed(answers.api_key).len() == 0
                ==> after.upstreams[0].api_key is None
            &&& trimmed(answers.upstream_model).len() > 0 ==> profile.upstream_model == Some(
                answers.upstream_model,
            )
            &&& trimmed(answers.upstream_model).len() == 0 ==> profile.upstream_model is None
            &&& trimmed(answers.upstream_request_log_path).len() > 0
                ==> after.upstream_request_log_path == Some(answers.upstream_request_log_path)
            &&& trimmed(answers.upstream_request_log_path).len() == 0
                ==> after.upstream_request_log_path is None
            &&& trimmed(answers.brave_api_key).len() > 0 ==> after.brave_api_key == Some(
                answers.brave_api_key,
            )
            &&& after.upstream_chat_kwargs == kwargs
            &&& after.brave_base_url == answers.brave_base_url
            &&& after.brave_max_results == answers.brave_max_results
            &&& after.request_timeout_secs == answers.request_timeout_secs
        }),
{
}

/// Whoever runs the flow again finds their answers of the last time filled in.
pub proof fn law_answers_are_filled_in_again(
    config: PersistedConfigView,
    answers: ConfigureAnswersView,
    kwargs: Map<Seq<char>, JsonView>,
)
    ensures
        ({
            let shown = prefilled(answered(config, answers, kwargs));
            &&& shown.bind_addr == answers.bind_addr
            &&& shown.upstream_base_url == answers.upstream_base_url
            &&& !answers.keep_api_key ==> (shown.has_api_key <==> trimmed(answers.api_key).len()
                > 0)
            &&& trimmed(answers.upstream_model).len() > 0 ==> shown.upstream_model
                == answers.upstream_model
            &&& trimmed(answers.upstream_request_log_path).len() > 0
                ==> shown.upstream_request_log_path == answers.upstream_request_log_path
            &&& kwargs != Map::<Seq<char>, JsonView>::empty() ==> shown.upstream_chat_kwargs
                == json_rendered(JsonView::Object(kwargs))
            &&& kwargs == Map::<Seq<char>, JsonView>::empty() ==> shown.upstream_chat_kwargs.len()
                == 0
            &&& shown.brave_base_url == answers.brave_base_url
            &&& shown.brave_max_results == answers.brave_max_results
            &&& shown.request_timeout_secs == answers.request_timeout_secs
        }),
{
    let after = answered(config, answers, kwargs);
    assert(profile_place(after.model_profiles, "*"@) == 0);
}

/// Arguments are taken as the JSON object that was answered, none where the answer is blank, and
/// anything else is refused.
pub proof fn law_arguments_are_those_answered(text: Seq<char>)
    ensures
        trimmed(text).len() == 0 ==> answered_kwargs(text) == Ok::<
            Map<Seq<char>, JsonView>,
            Seq<char>,
        >(Map::empty()),
        trimmed(text).len() > 0 && object_parsed(text) is Ok ==> answered_kwargs(text)
            == object_parsed(text),
        trimmed(text).len() > 0 && object_parsed(text) is Err ==> answered_kwargs(text) is Err,
{
}

} // verus!
