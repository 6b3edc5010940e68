//! The configuration as it is stored.
use vstd::prelude::*;

use crate::collections::TextMap;
use crate::duplicate::Duplicate;
use crate::json::{map_of, Json, JsonMap, JsonView};

use super::price::{ModelPrice, ModelPriceView};
use super::profile::{
    empty_profile, OrderedModelProfiles, PersistedModelProfile, PersistedModelProfileView,
};
use super::upstream::{PersistedUpstream, PersistedUpstreamView};

verus! {

/// The configuration as it is stored.
#[derive(Debug, PartialEq)]
pub struct PersistedConfig {
    pub bind_addr: String,
    pub upstream_base_url: Option<Json>,
    pub upstream_api_key: Option<Json>,
    pub upstream_model: Option<Json>,
    pub system_prompt_prefix: Option<String>,
    pub upstream_request_log_path: Option<String>,
    pub turn_capture_dir: Option<String>,
    pub upstream_chat_kwargs: JsonMap,
    pub upstreams: Vec<PersistedUpstream>,
    pub fallback_upstreams: Option<Json>,
    pub upstream_failure_cooldown_secs: u64,
    pub model_profile_templates: TextMap<PersistedModelProfile>,
    pub model_profiles: OrderedModelProfiles,
    pub model_routes: Option<Json>,
    pub template_family: Option<String>,
    pub brave_base_url: String,
    pub brave_api_key: Option<String>,
    pub brave_max_results: usize,
    pub request_timeout_secs: u64,
    pub connect_timeout_secs: u64,
    pub max_web_search_rounds: usize,
    pub flatten_content: bool,
    pub max_replay_entries: usize,
    pub debug_log_max_age_hours: Option<u64>,
    pub min_completion_tokens: i64,
    pub max_sse_frame_bytes: usize,
    pub max_request_body_bytes: usize,
    pub image_agent_enabled: Option<Json>,
    pub vision_url: Option<Json>,
    pub vision_model: Option<Json>,
    pub image_cache_max_size: usize,
    pub image_cache_ttl_secs: u64,
    pub unsupported_image_policy: Option<Json>,
    pub price_table: TextMap<ModelPrice>,
}

/// The model of [`PersistedConfig`].
pub struct PersistedConfigView {
    pub bind_addr: Seq<char>,
    pub upstream_base_url: Option<JsonView>,
    pub upstream_api_key: Option<JsonView>,
    pub upstream_model: Option<JsonView>,
    pub system_prompt_prefix: Option<Seq<char>>,
    pub upstream_request_log_path: Option<Seq<char>>,
    pub turn_capture_dir: Option<Seq<char>>,
    pub upstream_chat_kwargs: Map<Seq<char>, JsonView>,
    pub upstreams: Seq<PersistedUpstreamView>,
    pub fallback_upstreams: Option<JsonView>,
    pub upstream_failure_cooldown_secs: u64,
    pub model_profile_templates: Map<Seq<char>, PersistedModelProfileView>,
    pub model_profiles: Seq<(Seq<char>, PersistedModelProfileView)>,
    pub model_routes: Option<JsonView>,
    pub template_family: Option<Seq<char>>,
    pub brave_base_url: Seq<char>,
    pub brave_api_key: Option<Seq<char>>,
    pub brave_max_results: usize,
    pub request_timeout_secs: u64,
    pub connect_timeout_secs: u64,
    pub max_web_search_rounds: usize,
    pub flatten_content: bool,
    pub max_replay_entries: usize,
    pub debug_log_max_age_hours: Option<u64>,
    pub min_completion_tokens: i64,
    pub max_sse_frame_bytes: usize,
    pub max_request_body_bytes: usize,
    pub image_agent_enabled: Option<JsonView>,
    pub vision_url: Option<JsonView>,
    pub vision_model: Option<JsonView>,
    pub image_cache_max_size: usize,
    pub image_cache_ttl_secs: u64,
    pub unsupported_image_policy: Option<JsonView>,
    pub price_table: Map<Seq<char>, ModelPriceView>,
}

impl DeepView for PersistedConfig {
    type V = PersistedConfigView;

    open spec fn deep_view(&self) -> PersistedConfigView {
        PersistedConfigView {
            bind_addr: self.bind_addr@,
            upstream_base_url: self.upstream_base_url.deep_view(),
            upstream_api_key: self.upstream_api_key.deep_view(),
            upstream_model: self.upstream_model.deep_view(),
            system_prompt_prefix: self.system_prompt_prefix.deep_view(),
            upstream_request_log_path: self.upstream_request_log_path.deep_view(),
            turn_capture_dir: self.turn_capture_dir.deep_view(),
            upstream_chat_kwargs: map_of(self.upstream_chat_kwargs.deep_view()),
            upstreams: self.upstreams.deep_view(),
            fallback_upstreams: self.fallback_upstreams.deep_view(),
            upstream_failure_cooldown_secs: self.upstream_failure_cooldown_secs,
            model_profile_templates: self.model_profile_templates.deep_view(),
            model_profiles: self.model_profiles.deep_view(),
            model_routes: self.model_routes.deep_view(),
            template_family: self.template_family.deep_view(),
            brave_base_url: self.brave_base_url@,
            brave_api_key: self.brave_api_key.deep_view(),
            brave_max_results: self.brave_max_results,
            request_timeout_secs: self.request_timeout_secs,
            connect_timeout_secs: self.connect_timeout_secs,
            max_web_search_rounds: self.max_web_search_rounds,
            flatten_content: self.flatten_content,
            max_replay_entries: self.max_replay_entries,
            debug_log_max_age_hours: self.debug_log_max_age_hours.deep_view(),
            min_completion_tokens: self.min_completion_tokens,
            max_sse_frame_bytes: self.max_sse_frame_bytes,
            max_request_body_bytes: self.max_request_body_bytes,
            image_agent_enabled: self.image_agent_enabled.deep_view(),
            vision_url: self.vision_url.deep_view(),
            vision_model: self.vision_model.deep_view(),
            image_cache_max_size: self.image_cache_max_size,
            image_cache_ttl_secs: self.image_cache_ttl_secs,
            unsupported_image_policy: self.unsupported_image_policy.deep_view(),
            price_table: self.price_table.deep_view(),
        }
    }
}

impl Duplicate for PersistedConfig {
    fn duplicate(&self) -> (copy: Self) {
        PersistedConfig {
            bind_addr: self.bind_addr.clone(),
            upstream_base_url: self.upstream_base_url.duplicate(),
            upstream_api_key: self.upstream_api_key.duplicate(),
            upstream_model: self.upstream_model.duplicate(),
            system_prompt_prefix: self.system_prompt_prefix.duplicate(),
            upstream_request_log_path: self.upstream_request_log_path.duplicate(),
            turn_capture_dir: self.turn_capture_dir.duplicate(),
            upstream_chat_kwargs: self.upstream_chat_kwargs.duplicate(),
            upstreams: self.upstreams.duplicate(),
            fallback_upstreams: self.fallback_upstreams.duplicate(),
            upstream_failure_cooldown_secs: self.upstream_failure_cooldown_secs,
            model_profile_templates: self.model_profile_templates.duplicate(),
            model_profiles: self.model_profiles.duplicate(),
            model_routes: self.model_routes.duplicate(),
            template_family: self.template_family.duplicate(),
            brave_base_url: self.brave_base_url.clone(),
            brave_api_key: self.brave_api_key.duplicate(),
            brave_max_results: self.brave_max_results,
            request_timeout_secs: self.request_timeout_secs,
            connect_timeout_secs: self.connect_timeout_secs,
            max_web_search_rounds: self.max_web_search_rounds,
            flatten_content: self.flatten_content,
            max_replay_entries: self.max_replay_entries,
            debug_log_max_age_hours: self.debug_log_max_age_hours.duplicate(),
            min_completion_tokens: self.min_completion_tokens,
            max_sse_frame_bytes: self.max_sse_frame_bytes,
            max_request_body_bytes: self.max_request_body_bytes,
            image_agent_enabled: self.image_agent_enabled.duplicate(),
            vision_url: self.vision_url.duplicate(),
            vision_model: self.vision_model.duplicate(),
            image_cache_max_size: self.image_cache_max_size,
            image_cache_ttl_secs: self.image_cache_ttl_secs,
            unsupported_image_policy: self.unsupported_image_policy.duplicate(),
            price_table: self.price_table.duplicate(),
        }
    }
}

/// The address of the upstream that a gateway starts with.
pub const DEFAULT_UPSTREAM_BASE_URL: &'static str = "http://127.0.0.1:8000/v1";

/// The largest event that is read from an upstream, in bytes.
pub const DEFAULT_MAX_SSE_FRAME_BYTES: usize = 8388608;

/// The one upstream of the smallest configuration.
pub open spec fn default_upstream(url: Seq<char>) -> PersistedUpstreamView {
    PersistedUpstreamView {
        name: "default"@,
        url,
        api_key: None,
        api_key_env: None,
        chat_kwargs: Map::empty(),
        request_log_path: None,
        upstream_model: None,
        fallback_upstreams: None,
    }
}

/// The profile of the smallest configuration: every model goes to the one upstream.
pub open spec fn catch_all() -> (Seq<char>, PersistedModelProfileView) {
    ("*"@, PersistedModelProfileView { upstream: Some("default"@), ..empty_profile() })
}

/// The configuration that holds where nothing is stored.
pub open spec fn default_config() -> PersistedConfigView {
    PersistedConfigView {
        bind_addr: "127.0.0.1:4000"@,
        upstream_base_url: None,
        upstream_api_key: None,
        upstream_model: None,
        system_prompt_prefix: None,
        upstream_request_log_path: None,
        turn_capture_dir: None,
        upstream_chat_kwargs: Map::empty(),
        upstreams: seq![default_upstream("http://127.0.0.1:8000/v1"@)],
        fallback_upstreams: None,
        upstream_failure_cooldown_secs: 30,
        model_profile_templates: Map::empty(),
        model_profiles: seq![catch_all()],
        model_routes: None,
        template_family: None,
        brave_base_url: "https://api.search.brave.com/res/v1"@,
        brave_api_key: None,
        brave_max_results: 5,
        request_timeout_secs: 60,
        connect_timeout_secs: 10,
        max_web_search_rounds: 5,
        flatten_content: true,
        max_replay_entries: 1000,
        debug_log_max_age_hours: None,
        min_completion_tokens: 4096,
        max_sse_frame_bytes: 8388608,
        max_request_body_bytes: 10485760,
        image_agent_enabled: None,
        vision_url: None,
        vision_model: None,
        image_cache_max_size: 100,
        image_cache_ttl_secs: 300,
        unsupported_image_policy: None,
        price_table: Map::empty(),
    }
}

impl PersistedUpstream {
    /// The one upstream of the smallest configuration.
    pub fn minimal(url: String) -> (result: Self)
        ensures
            result.deep_view() == default_upstream(url@),
    {
        PersistedUpstream {
            name: "default".to_string(),
            url,
            api_key: None,
            api_key_env: None,
            chat_kwargs: Vec::new(),
            request_log_path: None,
            upstream_model: None,
            fallback_upstreams: None,
        }
    }
}

impl OrderedModelProfiles {
    /// The profiles of the smallest configuration: every model goes to the one upstream.
    pub fn minimal() -> (result: Self)
        ensures
            result.deep_view() == seq![catch_all()],
    {
        let mut profile = PersistedModelProfile::default();
        profile.upstream = Some("default".to_string());
        let mut profiles: Vec<(String, PersistedModelProfile)> = Vec::new();
        profiles.push(("*".to_string(), profile));
        let result = OrderedModelProfiles(profiles);
        assert(result.deep_view() =~= seq![catch_all()]);
        result
    }
}

impl Default for PersistedConfig {
    fn default() -> (result: Self)
        ensures
            result.deep_view() == default_config(),
    {
        let mut upstreams: Vec<PersistedUpstream> = Vec::new();
        upstreams.push(PersistedUpstream::minimal(DEFAULT_UPSTREAM_BASE_URL.to_string()));
        assert(upstreams.deep_view() =~= seq![default_upstream("http://127.0.0.1:8000/v1"@)]);
        PersistedConfig {
            bind_addr: "127.0.0.1:4000".to_string(),
            upstream_base_url: None,
            upstream_api_key: None,
            upstream_model: None,
            system_prompt_prefix: None,
            upstream_request_log_path: None,
            turn_capture_dir: None,
            upstream_chat_kwargs: Vec::new(),
            upstreams,
            fallback_upstreams: None,
            upstream_failure_cooldown_secs: 30,
            model_profile_templates: TextMap::new(),
            model_profiles: OrderedModelProfiles::minimal(),
            model_routes: None,
            template_family: None,
            brave_base_url: "https://api.search.brave.com/res/v1".to_string(),
            brave_api_key: None,
            brave_max_results: 5,
            request_timeout_secs: 60,
            connect_timeout_secs: 10,
            max_web_search_rounds: 5,
            flatten_content: true,
            max_replay_entries: 1000,
            debug_log_max_age_hours: None,
            min_completion_tokens: 4096,
            max_sse_frame_bytes: DEFAULT_MAX_SSE_FRAME_BYTES,
            max_request_body_bytes: 10485760,
            image_agent_enabled: None,
            vision_url: None,
            vision_model: None,
            image_cache_max_size: 100,
            image_cache_ttl_secs: 300,
            unsupported_image_policy: None,
            price_table: TextMap::new(),
        }
    }
}

// ---------------------------------------------------------------------------------------------
// Settings that are gone
// ---------------------------------------------------------------------------------------------

/// What to do in place of the first setting of `config` that is gone, if it has one.
pub open spec fn removed_setting(config: PersistedConfigView) -> Option<Seq<char>> {
    if config.upstream_base_url is Some {
        Some(
            "`upstream_base_url` was removed; declare the endpoint as an `upstreams:` entry and point a model profile at it"@,
        )
    } else if config.upstream_api_key is Some {
        Some(
            "`upstream_api_key` was removed; set `api_key` on the `upstreams:` entry instead"@,
        )
    } else if config.upstream_model is Some {
        Some(
            "`upstream_model` was removed; set `upstream_model` on the model profile instead"@,
        )
    } else if config.fallback_upstreams is Some {
        Some(
            "`fallback_upstreams` was removed; declare `fallbacks` on the model profile instead"@,
        )
    } else if config.model_routes is Some {
        Some("`model_routes` was removed; use glob `model_profiles` keys instead"@)
    } else if config.image_agent_enabled is Some {
        Some(
            "`image_agent_enabled` was removed; configure `image_analysis` on the model profile instead"@,
        )
    } else if config.vision_url is Some {
        Some(
            "`vision_url` was removed; configure `image_analysis` on the model profile instead"@,
        )
    } else if config.vision_model is Some {
        Some(
            "`vision_model` was removed; configure `image_analysis` on the model profile instead"@,
        )
    } else if config.unsupported_image_policy is Some {
        Some(
            "`unsupported_image_policy` was removed; set `image_analysis.residual_images` on the model profile instead"@,
        )
    } else {
        None
    }
}

/// Turns away a configuration with a setting that is gone, and says what took its place.
pub fn reject_removed_global_knobs(config: &PersistedConfig) -> (result: Result<(), String>)
    ensures
        match removed_setting(config.deep_view()) {
            Some(hint) => result matches Err(message) && message@ == hint
                + " (see README \"Migrating\")"@,
            None => result is Ok,
        },
{
    let hint = if config.upstream_base_url.is_some() {
        "`upstream_base_url` was removed; declare the endpoint as an `upstreams:` entry and point a model profile at it"
    } else if config.upstream_api_key.is_some() {
        "`upstream_api_key` was removed; set `api_key` on the `upstreams:` entry instead"
    } else if config.upstream_model.is_some() {
        "`upstream_model` was removed; set `upstream_model` on the model profile instead"
    } else if config.fallback_upstreams.is_some() {
        "`fallback_upstreams` was removed; declare `fallbacks` on the model profile instead"
    } else if config.model_routes.is_some() {
        "`model_routes` was removed; use glob `model_profiles` keys instead"
    } else if config.image_agent_enabled.is_some() {
        "`image_agent_enabled` was removed; configure `image_analysis` on the model profile instead"
    } else if config.vision_url.is_some() {
        "`vision_url` was removed; configure `image_analysis` on the model profile instead"
    } else if config.vision_model.is_some() {
        "`vision_model` was removed; configure `image_analysis` on the model profile instead"
    } else if config.unsupported_image_policy.is_some() {
        "`unsupported_image_policy` was removed; set `image_analysis.residual_images` on the model profile instead"
    } else {
        return Ok(());
    };
    let mut message = hint.to_string();
    message.push_str(" (see README \"Migrating\")");
    Err(message)
}

} // verus!
