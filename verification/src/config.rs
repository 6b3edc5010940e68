//! The configuration of the gateway.
pub mod capabilities;
pub mod env;
pub mod files;
pub mod glob;
pub mod laws;
pub mod merge;
pub mod persisted;
pub mod policies;
pub mod price;
pub mod profile;
pub mod profile_laws;
pub mod reasoning;
pub mod roles;
pub mod routing;
pub mod upstream;
pub mod validation;

use vstd::prelude::*;

pub use self::capabilities::{
    CapabilitiesConfig, ContextFeature, ContextManagementCap, EffortCap, EffortLevel, SimpleCap,
    ThinkingCap, ThinkingType,
};
pub use self::glob::compile_model_glob;
pub use self::merge::merge_json_maps;
pub use self::persisted::PersistedConfig;
pub use self::policies::ReasoningEffortPolicy;
pub use self::price::ModelPrice;
pub use self::profile::{
    CompiledProfile, ImageAnalysisConfig, ModelProfile, OrderedModelProfiles,
    PersistedModelProfile, PersistedProfileFallback, ProfileFallback, ResidualImagePolicy,
};
pub use self::reasoning::ReasoningConfig;
pub use self::roles::{Action, RoleRule, RoleRuleSet, RolesConfig, When};
pub use self::routing::ResolvedRoute;
pub use self::upstream::{PersistedUpstream, UpstreamConfig};

use crate::clock::TimeSpan;
use crate::collections::{value_named, TextMap};
use crate::duplicate::Duplicate;
use crate::error::outcome;
use crate::json::{map_of, JsonMap, JsonView};
use crate::paths::{
    components, extension, is_parent, is_plain, lemma_beginning_is_plain, lemma_no_components,
    parent_components, path_extension, path_parent, same_path,
};
use crate::text::{lowered, trimmed};

use self::persisted::{reject_removed_global_knobs, removed_setting, PersistedConfigView};
use self::price::{finite_prices, retain_finite_prices, ModelPriceView};
use self::profile::{
    compiled_profiles, known_family, normalize_template_family, resolve_model_profiles,
    CompiledProfileView,
};
use self::reasoning::{filled_text, trim_nonempty};
use self::upstream::{
    parse_upstreams, parse_url, parsed_upstreams, url_parsed, urls_of, UpstreamConfigView,
};
use self::validation::{profiles_problem, validate_model_profiles};

verus! {

/// The configuration that the gateway works with.
#[derive(Debug)]
pub struct Config {
    pub bind_addr: String,
    pub system_prompt_prefix: Option<String>,
    pub upstream_request_log_path: Option<String>,
    pub turn_capture_dir: Option<String>,
    pub upstream_chat_kwargs: JsonMap,
    pub upstreams: Vec<UpstreamConfig>,
    pub upstream_failure_cooldown_secs: u64,
    pub model_profiles: Vec<CompiledProfile>,
    pub template_family: Option<String>,
    pub brave_base_url: String,
    pub brave_api_key: Option<String>,
    pub brave_max_results: usize,
    pub request_timeout: TimeSpan,
    pub connect_timeout_secs: u64,
    pub max_web_search_rounds: usize,
    pub flatten_content: bool,
    pub max_replay_entries: usize,
    pub debug_log_max_age_hours: Option<u64>,
    pub min_completion_tokens: i64,
    pub max_sse_frame_bytes: usize,
    pub max_request_body_bytes: usize,
    pub image_cache_max_size: usize,
    pub image_cache_ttl_secs: u64,
    pub price_table: TextMap<ModelPrice>,
}

/// The model of [`Config`].
pub struct ConfigView {
    pub bind_addr: Seq<char>,
    pub system_prompt_prefix: Option<Seq<char>>,
    pub upstream_request_log_path: Option<Seq<char>>,
    pub turn_capture_dir: Option<Seq<char>>,
    pub upstream_chat_kwargs: Map<Seq<char>, JsonView>,
    pub upstreams: Seq<UpstreamConfigView>,
    pub upstream_failure_cooldown_secs: u64,
    pub model_profiles: Seq<CompiledProfileView>,
    pub template_family: Option<Seq<char>>,
    pub brave_base_url: Seq<char>,
    pub brave_api_key: Option<Seq<char>>,
    pub brave_max_results: usize,
    pub request_timeout: TimeSpan,
    pub connect_timeout_secs: u64,
    pub max_web_search_rounds: usize,
    pub flatten_content: bool,
    pub max_replay_entries: usize,
    pub debug_log_max_age_hours: Option<u64>,
    pub min_completion_tokens: i64,
    pub max_sse_frame_bytes: usize,
    pub max_request_body_bytes: usize,
    pub image_cache_max_size: usize,
    pub image_cache_ttl_secs: u64,
    pub price_table: Map<Seq<char>, ModelPriceView>,
}

impl DeepView for Config {
    type V = ConfigView;

    open spec fn deep_view(&self) -> ConfigView {
        ConfigView {
            bind_addr: self.bind_addr@,
            system_prompt_prefix: self.system_prompt_prefix.deep_view(),
            upstream_request_log_path: self.upstream_request_log_path.deep_view(),
            turn_capture_dir: self.turn_capture_dir.deep_view(),
            upstream_chat_kwargs: map_of(self.upstream_chat_kwargs.deep_view()),
            upstreams: self.upstreams.deep_view(),
            upstream_failure_cooldown_secs: self.upstream_failure_cooldown_secs,
            model_profiles: self.model_profiles.deep_view(),
            template_family: self.template_family.deep_view(),
            brave_base_url: self.brave_base_url@,
            brave_api_key: self.brave_api_key.deep_view(),
            brave_max_results: self.brave_max_results,
            request_timeout: self.request_timeout,
            connect_timeout_secs: self.connect_timeout_secs,
            max_web_search_rounds: self.max_web_search_rounds,
            flatten_content: self.flatten_content,
            max_replay_entries: self.max_replay_entries,
            debug_log_max_age_hours: self.debug_log_max_age_hours.deep_view(),
            min_completion_tokens: self.min_completion_tokens,
            max_sse_frame_bytes: self.max_sse_frame_bytes,
            max_request_body_bytes: self.max_request_body_bytes,
            image_cache_max_size: self.image_cache_max_size,
            image_cache_ttl_secs: self.image_cache_ttl_secs,
            price_table: self.price_table.deep_view(),
        }
    }
}

impl Duplicate for Config {
    fn duplicate(&self) -> (copy: Self) {
        Config {
            bind_addr: self.bind_addr.clone(),
            system_prompt_prefix: self.system_prompt_prefix.duplicate(),
            upstream_request_log_path: self.upstream_request_log_path.duplicate(),
            turn_capture_dir: self.turn_capture_dir.duplicate(),
            upstream_chat_kwargs: self.upstream_chat_kwargs.duplicate(),
            upstreams: self.upstreams.duplicate(),
            upstream_failure_cooldown_secs: self.upstream_failure_cooldown_secs,
            model_profiles: self.model_profiles.duplicate(),
            template_family: self.template_family.duplicate(),
            brave_base_url: self.brave_base_url.clone(),
            brave_api_key: self.brave_api_key.duplicate(),
            brave_max_results: self.brave_max_results,
            request_timeout: self.request_timeout,
            connect_timeout_secs: self.connect_timeout_secs,
            max_web_search_rounds: self.max_web_search_rounds,
            flatten_content: self.flatten_content,
            max_replay_entries: self.max_replay_entries,
            debug_log_max_age_hours: self.debug_log_max_age_hours.duplicate(),
            min_completion_tokens: self.min_completion_tokens,
            max_sse_frame_bytes: self.max_sse_frame_bytes,
            max_request_body_bytes: self.max_request_body_bytes,
            image_cache_max_size: self.image_cache_max_size,
            image_cache_ttl_secs: self.image_cache_ttl_secs,
            price_table: self.price_table.duplicate(),
        }
    }
}

/// `value`, or `floor` where it is less.
pub open spec fn at_least(value: int, floor: int) -> int {
    if value < floor {
        floor
    } else {
        value
    }
}

/// The settings of `config` with what was made of its addresses, upstreams and profiles.
pub open spec fn settled(
    config: PersistedConfigView,
    bind_addr: Seq<char>,
    brave_base_url: Seq<char>,
    upstreams: Seq<UpstreamConfigView>,
    model_profiles: Seq<CompiledProfileView>,
) -> ConfigView {
    ConfigView {
        bind_addr,
        system_prompt_prefix: match config.system_prompt_prefix {
            Some(prefix) => if trimmed(prefix).len() > 0 {
                Some(prefix)
            } else {
                None
            },
            None => None,
        },
        upstream_request_log_path: filled_text(config.upstream_request_log_path),
        turn_capture_dir: filled_text(config.turn_capture_dir),
        upstream_chat_kwargs: config.upstream_chat_kwargs,
        upstreams,
        upstream_failure_cooldown_secs: config.upstream_failure_cooldown_secs,
        model_profiles,
        template_family: known_family(config.template_family),
        brave_base_url,
        brave_api_key: filled_text(config.brave_api_key),
        brave_max_results: config.brave_max_results,
        request_timeout: TimeSpan { secs: config.request_timeout_secs, nanos: 0 },
        connect_timeout_secs: config.connect_timeout_secs,
        max_web_search_rounds: config.max_web_search_rounds,
        flatten_content: config.flatten_content,
        max_replay_entries: config.max_replay_entries,
        debug_log_max_age_hours: config.debug_log_max_age_hours,
        min_completion_tokens: at_least(config.min_completion_tokens as int, 1) as i64,
        max_sse_frame_bytes: at_least(config.max_sse_frame_bytes as int, 1024) as usize,
        max_request_body_bytes: at_least(config.max_request_body_bytes as int, 1024) as usize,
        image_cache_max_size: at_least(config.image_cache_max_size as int, 1) as usize,
        image_cache_ttl_secs: config.image_cache_ttl_secs,
        price_table: finite_prices(config.price_table),
    }
}

/// The configuration that `config` stands for, or the first thing that is wrong with it. The other
/// arguments are what was made of its addresses, upstreams and profiles.
pub open spec fn configured(
    config: PersistedConfigView,
    bind_addr: Result<Seq<char>, Seq<char>>,
    brave_base_url: Result<Seq<char>, Seq<char>>,
    upstreams: Result<Seq<UpstreamConfigView>, Seq<char>>,
    model_profiles: Result<Seq<CompiledProfileView>, Seq<char>>,
) -> Result<ConfigView, Seq<char>> {
    if removed_setting(config) is Some {
        Err(removed_setting(config)->0 + " (see README \"Migrating\")"@)
    } else {
        match (bind_addr, brave_base_url, upstreams, model_profiles) {
            (Err(message), _, _, _) => Err("invalid bind_addr: "@ + message),
            (Ok(_), Err(message), _, _) => Err("invalid brave_base_url: "@ + message),
            (Ok(_), Ok(_), Err(message), _) => Err(message),
            (Ok(_), Ok(_), Ok(_), Err(message)) => Err(message),
            (Ok(addr), Ok(url), Ok(upstreams), Ok(profiles)) => if profiles.len() == 0 {
                Err(
                    "`model_profiles` is empty; every served model needs a profile - add one (a catch-all works: `model_profiles: {\"*\": {upstream: <name>}}`) (see README \"Migrating\")"@,
                )
            } else {
                match profiles_problem(profiles, upstreams, profiles.len() as int) {
                    Some(message) => Err(message),
                    None => Ok(settled(config, addr, url, upstreams, profiles)),
                }
            },
        }
    }
}

fn prefixed(prefix: &str, message: &str) -> (result: String)
    ensures
        result@ == prefix@ + message@,
{
    let mut result = prefix.to_string();
    result.push_str(message);
    result
}

impl Config {
    /// The configuration that `config` stands for, with what was made of its addresses, upstreams
    /// and profiles.
    pub fn from_resolved(
        config: &PersistedConfig,
        bind_addr: Result<String, String>,
        brave_base_url: Result<String, String>,
        upstreams: Result<Vec<UpstreamConfig>, String>,
        model_profiles: Result<Vec<CompiledProfile>, String>,
    ) -> (result: Result<Config, String>)
        ensures
            outcome(result) == configured(
                config.deep_view(),
                outcome(bind_addr),
                outcome(brave_base_url),
                outcome(upstreams),
                outcome(model_profiles),
            ),
    {
        if let Err(message) = reject_removed_global_knobs(config) {
            return Err(message);
        }
        let bind_addr = match bind_addr {
            Ok(addr) => addr,
            Err(message) => {
                return Err(prefixed("invalid bind_addr: ", message.as_str()));
            },
        };
        let brave_base_url = match brave_base_url {
            Ok(url) => url,
            Err(message) => {
                return Err(prefixed("invalid brave_base_url: ", message.as_str()));
            },
        };
        let upstreams = match upstreams {
            Ok(upstreams) => upstreams,
            Err(message) => {
                return Err(message);
            },
        };
        let model_profiles = match model_profiles {
            Ok(profiles) => profiles,
            Err(message) => {
                return Err(message);
            },
        };
        if model_profiles.len() == 0 {
            return Err(
                "`model_profiles` is empty; every served model needs a profile - add one (a catch-all works: `model_profiles: {\"*\": {upstream: <name>}}`) (see README \"Migrating\")".to_string(),
            );
        }
        if let Err(message) = validate_model_profiles(&model_profiles, &upstreams) {
            return Err(message);
        }
        let system_prompt_prefix = match &config.system_prompt_prefix {
            Some(prefix) => if prefix.as_str().trim().is_empty() {
                None
            } else {
                Some(prefix.clone())
            },
            None => None,
        };
        Ok(
            Config {
                bind_addr,
                system_prompt_prefix,
                upstream_request_log_path: trim_nonempty(&config.upstream_request_log_path),
                turn_capture_dir: trim_nonempty(&config.turn_capture_dir),
                upstream_chat_kwargs: config.upstream_chat_kwargs.duplicate(),
                upstreams,
                upstream_failure_cooldown_secs: config.upstream_failure_cooldown_secs,
                model_profiles,
                template_family: normalize_template_family(&config.template_family),
                brave_base_url,
                brave_api_key: trim_nonempty(&config.brave_api_key),
                brave_max_results: config.brave_max_results,
                request_timeout: TimeSpan { secs: config.request_timeout_secs, nanos: 0 },
                connect_timeout_secs: config.connect_timeout_secs,
                max_web_search_rounds: config.max_web_search_rounds,
                flatten_content: config.flatten_content,
                max_replay_entries: config.max_replay_entries,
                debug_log_max_age_hours: config.debug_log_max_age_hours,
                min_completion_tokens: if config.min_completion_tokens < 1 {
                    1
                } else {
                    config.min_completion_tokens
                },
                max_sse_frame_bytes: if config.max_sse_frame_bytes < 1024 {
                    1024
                } else {
                    config.max_sse_frame_bytes
                },
                max_request_body_bytes: if config.max_request_body_bytes < 1024 {
                    1024
                } else {
                    config.max_request_body_bytes
                },
                image_cache_max_size: if config.image_cache_max_size < 1 {
                    1
                } else {
                    config.image_cache_max_size
                },
                image_cache_ttl_secs: config.image_cache_ttl_secs,
                price_table: retain_finite_prices(&config.price_table),
            },
        )
    }

    /// The configuration that `config` stands for. `bind_addr` is the socket address that its
    /// `bind_addr` was read as, or why it is none; keys that are kept in the environment are looked
    /// up in `env`.
    pub fn from_persisted(
        config: &PersistedConfig,
        bind_addr: Result<String, String>,
        env: &TextMap<String>,
    ) -> (result: Result<Config, String>)
        ensures
            outcome(result) == configured(
                config.deep_view(),
                outcome(bind_addr),
                url_parsed(config.deep_view().brave_base_url),
                parsed_upstreams(
                    config.deep_view().upstreams,
                    urls_of(config.deep_view().upstreams),
                    env.deep_view(),
                    config.deep_view().upstreams.len() as int,
                ),
                compiled_profiles(
                    config.deep_view().model_profiles,
                    config.deep_view().model_profile_templates,
                    config.deep_view().model_profiles.len() as int,
                ),
            ),
    {
        let brave_base_url = parse_url(config.brave_base_url.as_str());
        let upstreams = parse_upstreams(&config.upstreams, env);
        let profiles = resolve_model_profiles(
            &config.model_profiles,
            &config.model_profile_templates,
        );
        Config::from_resolved(config, bind_addr, brave_base_url, upstreams, profiles)
    }

    /// How long connecting to an upstream may take.
    pub fn connect_timeout(&self) -> (result: TimeSpan)
        ensures
            result == (TimeSpan { secs: self.connect_timeout_secs, nanos: 0 }),
    {
        TimeSpan { secs: self.connect_timeout_secs, nanos: 0 }
    }

    /// The price of a model, or else of the first model whose name differs only in case.
    pub fn price_for(&self, model: &str) -> (result: Option<ModelPrice>)
        ensures
            result.deep_view() == value_named(self.deep_view().price_table, model@),
    {
        match self.price_table.find(model) {
            Some(price) => Some(price.duplicate()),
            None => None,
        }
    }

    /// Whether there are no named upstreams.
    pub fn is_plain_single_provider(&self) -> (result: bool)
        ensures
            result == (self.deep_view().upstreams.len() == 0),
    {
        self.upstreams.len() == 0
    }
}

// ---------------------------------------------------------------------------------------------
// Log directories
// ---------------------------------------------------------------------------------------------

/// `paths` with `path`, where there is one.
pub open spec fn with_path(paths: Seq<Seq<char>>, path: Option<Seq<char>>) -> Seq<Seq<char>> {
    match path {
        Some(path) => paths.push(path),
        None => paths,
    }
}

/// The paths of the logs of the first `count` upstreams.
pub open spec fn upstream_log_paths(
    upstreams: Seq<UpstreamConfigView>,
    count: int,
) -> Seq<Seq<char>>
    decreases count,
{
    if count <= 0 {
        Seq::empty()
    } else {
        with_path(
            upstream_log_paths(upstreams, count - 1),
            upstreams[count - 1].request_log_path,
        )
    }
}

/// The paths of the logs that are written: those of the upstreams, or the gateway's own if there are
/// no upstreams.
pub open spec fn log_paths(config: ConfigView) -> Seq<Seq<char>> {
    if config.upstreams.len() == 0 {
        with_path(Seq::empty(), config.upstream_request_log_path)
    } else {
        upstream_log_paths(config.upstreams, config.upstreams.len() as int)
    }
}

/// The directory that a parent stands for. A file without one is in the current directory.
pub open spec fn shown_parent(parent: Option<Seq<char>>) -> Option<Seq<char>> {
    match parent {
        Some(dir) => Some(
            if dir.len() == 0 {
                "."@
            } else {
                dir
            },
        ),
        None => None,
    }
}

/// The directories that the first `count` parents stand for.
pub open spec fn shown_parents(parents: Seq<Option<Seq<char>>>, count: int) -> Seq<Seq<char>>
    decreases count,
{
    if count <= 0 {
        Seq::empty()
    } else {
        with_path(shown_parents(parents, count - 1), shown_parent(parents[count - 1]))
    }
}

/// The first `count` of `dirs`, without those that are known already.
pub open spec fn unknown_dirs(dirs: Seq<Seq<char>>, known: Seq<bool>, count: int) -> Seq<Seq<char>>
    decreases count,
{
    if count <= 0 {
        Seq::empty()
    } else if known[count - 1] {
        unknown_dirs(dirs, known, count - 1)
    } else {
        unknown_dirs(dirs, known, count - 1).push(dirs[count - 1])
    }
}

/// The log directories, where the paths of the logs have the given parents and `known` says which of
/// the directories is known already when it is its turn.
pub open spec fn chosen_dirs(
    config: ConfigView,
    parents: Seq<Option<Seq<char>>>,
    known: Seq<bool>,
) -> Seq<Seq<char>> {
    let dirs = with_path(
        shown_parents(parents, parents.len() as int),
        config.turn_capture_dir,
    );
    unknown_dirs(dirs, known, dirs.len() as int)
}

/// The components of the directory of the file at `path`.
pub open spec fn dir_of(path: Seq<char>) -> Option<Seq<Seq<char>>> {
    match parent_components(path) {
        Some(parts) => Some(
            if parts.len() == 0 {
                components("."@)
            } else {
                parts
            },
        ),
        None => None,
    }
}

/// The components of the directories of the first `count` files.
pub open spec fn dirs_of(paths: Seq<Seq<char>>, count: int) -> Seq<Seq<Seq<char>>>
    decreases count,
{
    if count <= 0 {
        Seq::empty()
    } else {
        match dir_of(paths[count - 1]) {
            Some(dir) => dirs_of(paths, count - 1).push(dir),
            None => dirs_of(paths, count - 1),
        }
    }
}

/// The first `count` of `dirs`, each once, where it comes first.
pub open spec fn listed_once(dirs: Seq<Seq<Seq<char>>>, count: int) -> Seq<Seq<Seq<char>>>
    decreases count,
{
    if count <= 0 {
        Seq::empty()
    } else if listed_once(dirs, count - 1).contains(dirs[count - 1]) {
        listed_once(dirs, count - 1)
    } else {
        listed_once(dirs, count - 1).push(dirs[count - 1])
    }
}

/// The components of the directories that logs are written to, each directory once.
pub open spec fn log_dirs(config: ConfigView) -> Seq<Seq<Seq<char>>> {
    let paths = log_paths(config);
    let dirs = match config.turn_capture_dir {
        Some(dir) => dirs_of(paths, paths.len() as int).push(components(dir)),
        None => dirs_of(paths, paths.len() as int),
    };
    listed_once(dirs, dirs.len() as int)
}

/// Whether every platform reads the paths of the logs alike.
pub open spec fn has_plain_log_paths(config: ConfigView) -> bool {
    &&& forall|k: int| 0 <= k < log_paths(config).len() ==> is_plain(#[trigger] log_paths(config)[k])
    &&& config.turn_capture_dir matches Some(dir) ==> is_plain(dir)
}

/// The components of each of `dirs`.
pub open spec fn all_components(dirs: Seq<Seq<char>>) -> Seq<Seq<Seq<char>>> {
    dirs.map_values(|dir: Seq<char>| components(dir))
}

/// The directory that a parent stands for.
pub fn dir_of_parent(parent: Option<String>) -> (result: Option<String>)
    ensures
        result.deep_view() == shown_parent(parent.deep_view()),
{
    match parent {
        Some(dir) => if dir.is_empty() {
            Some(".".to_string())
        } else {
            Some(dir)
        },
        None => None,
    }
}

/// Adds a directory to `dirs`, unless it is known.
pub fn list_dir(dirs: &mut Vec<String>, dir: &str, known: bool)
    ensures
        final(dirs).deep_view() == (if known {
            old(dirs).deep_view()
        } else {
            old(dirs).deep_view().push(dir@)
        }),
{
    if !known {
        dirs.push(dir.to_string());
        assert(dirs.deep_view() =~= old(dirs).deep_view().push(dir@));
    }
}

/// Whether `dir` is the same path as one of `dirs`.
fn knows_dir(dirs: &Vec<String>, dir: &str) -> (result: bool)
    ensures
        is_plain(dir@) && (forall|k: int|
            0 <= k < dirs@.len() ==> is_plain(#[trigger] dirs.deep_view()[k])) ==> result
            == all_components(dirs.deep_view()).contains(components(dir@)),
{
    let ghost models = dirs.deep_view();
    let ghost plain = is_plain(dir@) && forall|k: int|
        0 <= k < models.len() ==> is_plain(#[trigger] models[k]);
    for index in 0..dirs.len()
        invariant
            models == dirs.deep_view(),
            plain == (is_plain(dir@) && forall|k: int|
                0 <= k < models.len() ==> is_plain(#[trigger] models[k])),
            plain ==> forall|k: int|
                0 <= k < index ==> components(#[trigger] models[k]) != components(dir@),
    {
        assert(models[index as int] == dirs@[index as int]@);
        if same_path(dirs[index].as_str(), dir) {
            assert(plain ==> all_components(models)[index as int] == components(dir@));
            return true;
        }
    }
    assert(plain ==> !all_components(models).contains(components(dir@))) by {
        if plain && all_components(models).contains(components(dir@)) {
            let k = choose|k: int|
                0 <= k < models.len() && all_components(models)[k] == components(dir@);
            assert(components(models[k]) == components(dir@));
        }
    }
    false
}

/// `dirs`, each once.
fn list_dirs(dirs: &Vec<String>) -> (result: Vec<String>)
    ensures
        exists|known: Seq<bool>|
            result.deep_view() == #[trigger] unknown_dirs(
                dirs.deep_view(),
                known,
                dirs@.len() as int,
            ),
        (forall|k: int| 0 <= k < dirs@.len() ==> is_plain(#[trigger] dirs.deep_view()[k]))
            ==> all_components(result.deep_view()) == listed_once(
            all_components(dirs.deep_view()),
            dirs@.len() as int,
        ),
{
    let ghost models = dirs.deep_view();
    let ghost plain = forall|k: int| 0 <= k < models.len() ==> is_plain(#[trigger] models[k]);
    let ghost mut known: Seq<bool> = Seq::empty();
    let mut result: Vec<String> = Vec::new();
    assert(result.deep_view() =~= Seq::<Seq<char>>::empty());
    assert(all_components(result.deep_view()) =~= Seq::empty());
    for index in 0..dirs.len()
        invariant
            models == dirs.deep_view(),
            plain == (forall|k: int| 0 <= k < models.len() ==> is_plain(#[trigger] models[k])),
            known.len() == index,
            result.deep_view() == unknown_dirs(models, known, index as int),
            plain ==> forall|k: int|
                0 <= k < result@.len() ==> is_plain(#[trigger] result.deep_view()[k]),
            plain ==> all_components(result.deep_view()) == listed_once(
                all_components(models),
                index as int,
            ),
    {
        let ghost before = result.deep_view();
        let ghost parts = all_components(models);
        assert(models[index as int] == dirs@[index as int]@);
        assert(parts[index as int] == components(models[index as int]));
        let is_known = knows_dir(&result, dirs[index].as_str());
        list_dir(&mut result, dirs[index].as_str(), is_known);
        proof {
            lemma_unknown_dirs_stay(models, known, is_known, index as int);
            known = known.push(is_known);
            if !is_known {
                assert(all_components(result.deep_view()) =~= all_components(before).push(
                    parts[index as int],
                ));
            }
            if plain {
                assert forall|k: int| 0 <= k < result@.len() implies is_plain(
                    #[trigger] result.deep_view()[k],
                ) by {
                    if k < before.len() {
                        assert(result.deep_view()[k] == before[k]);
                    }
                }
            }
        }
    }
    result
}

proof fn lemma_unknown_dirs_stay(dirs: Seq<Seq<char>>, known: Seq<bool>, last: bool, count: int)
    requires
        count <= known.len(),
    ensures
        unknown_dirs(dirs, known.push(last), count) == unknown_dirs(dirs, known, count),
    decreases count,
{
    if count > 0 {
        lemma_unknown_dirs_stay(dirs, known, last, count - 1);
    }
}

proof fn lemma_shown_parents_stay(
    parents: Seq<Option<Seq<char>>>,
    last: Option<Seq<char>>,
    count: int,
)
    requires
        count <= parents.len(),
    ensures
        shown_parents(parents.push(last), count) == shown_parents(parents, count),
    decreases count,
{
    if count > 0 {
        lemma_shown_parents_stay(parents, last, count - 1);
    }
}

/// The directory of a plain path has the components that it should have.
proof fn lemma_shown_parent(path: Seq<char>, parent: Option<Seq<char>>)
    requires
        is_plain(path),
        is_parent(path, parent),
    ensures
        shown_parent(parent) is Some <==> dir_of(path) is Some,
        shown_parent(parent) matches Some(dir) ==> is_plain(dir) && dir_of(path) == Some(
            components(dir),
        ),
{
    if let Some(dir) = parent {
        lemma_beginning_is_plain(path, dir);
        lemma_no_components(dir);
        reveal_strlit(".");
    }
}

impl Config {
    /// The paths of the logs that are written.
    pub fn log_paths(&self) -> (result: Vec<String>)
        ensures
            result.deep_view() == log_paths(self.deep_view()),
    {
        let ghost upstreams = self.upstreams.deep_view();
        let mut paths: Vec<String> = Vec::new();
        assert(paths.deep_view() =~= Seq::<Seq<char>>::empty());
        if self.upstreams.len() == 0 {
            if let Some(path) = &self.upstream_request_log_path {
                paths.push(path.clone());
                assert(paths.deep_view() =~= Seq::<Seq<char>>::empty().push(path@));
            }
        } else {
            for index in 0..self.upstreams.len()
                invariant
                    upstreams == self.upstreams.deep_view(),
                    paths.deep_view() == upstream_log_paths(upstreams, index as int),
            {
                let ghost before = paths.deep_view();
                assert(upstreams[index as int] == self.upstreams@[index as int].deep_view());
                if let Some(path) = &self.upstreams[index].request_log_path {
                    paths.push(path.clone());
                    assert(paths.deep_view() =~= before.push(path@));
                }
            }
        }
        paths
    }

    /// The directories that logs are written to, each once: those of the logs of the upstreams, or
    /// of the gateway's own log if there are no upstreams, and at the end the one for whole turns.
    /// Whatever the parents of the paths are and whichever directories are the same, the result
    /// follows from them; where every platform reads the paths alike, they are as they should be.
    pub fn debug_log_dirs(&self) -> (result: Vec<String>)
        ensures
            exists|parents: Seq<Option<Seq<char>>>, known: Seq<bool>|
                parents.len() == log_paths(self.deep_view()).len() && result.deep_view()
                    == #[trigger] chosen_dirs(self.deep_view(), parents, known),
            has_plain_log_paths(self.deep_view()) ==> all_components(result.deep_view())
                == log_dirs(self.deep_view()),
    {
        let paths = self.log_paths();
        let ghost models = log_paths(self.deep_view());
        let ghost plain = has_plain_log_paths(self.deep_view());
        let ghost mut parents: Seq<Option<Seq<char>>> = Seq::empty();
        let mut dirs: Vec<String> = Vec::new();
        assert(dirs.deep_view() =~= Seq::<Seq<char>>::empty());
        assert(all_components(dirs.deep_view()) =~= Seq::empty());
        for index in 0..paths.len()
            invariant
                models == paths.deep_view(),
                models == log_paths(self.deep_view()),
                plain == has_plain_log_paths(self.deep_view()),
                parents.len() == index,
                dirs.deep_view() == shown_parents(parents, index as int),
                plain ==> forall|k: int|
                    0 <= k < dirs@.len() ==> is_plain(#[trigger] dirs.deep_view()[k]),
                plain ==> all_components(dirs.deep_view()) == dirs_of(models, index as int),
        {
            let ghost before = dirs.deep_view();
            assert(models[index as int] == paths@[index as int]@);
            let parent = path_parent(paths[index].as_str());
            proof {
                lemma_shown_parents_stay(parents, parent.deep_view(), index as int);
                parents = parents.push(parent.deep_view());
                if plain {
                    assert(is_plain(log_paths(self.deep_view())[index as int]));
                    lemma_shown_parent(models[index as int], parent.deep_view());
                }
            }
            if let Some(dir) = dir_of_parent(parent) {
                let ghost added = dir@;
                dirs.push(dir);
                assert(dirs.deep_view() =~= before.push(added));
                assert(all_components(dirs.deep_view()) =~= all_components(before).push(
                    components(added),
                ));
                assert(plain ==> forall|k: int|
                    0 <= k < dirs@.len() ==> is_plain(#[trigger] dirs.deep_view()[k]));
            }
        }
        if let Some(dir) = &self.turn_capture_dir {
            let ghost before = dirs.deep_view();
            dirs.push(dir.clone());
            assert(dirs.deep_view() =~= before.push(dir@));
            assert(all_components(dirs.deep_view()) =~= all_components(before).push(
                components(dir@),
            ));
        }
        let result = list_dirs(&dirs);
        proof {
            let known = choose|known: Seq<bool>|
                result.deep_view() == #[trigger] unknown_dirs(
                    dirs.deep_view(),
                    known,
                    dirs@.len() as int,
                );
            assert(result.deep_view() == chosen_dirs(self.deep_view(), parents, known));
        }
        result
    }
}

/// Whether an extension is that of a file in TOML.
pub open spec fn is_toml(extension: Option<Seq<char>>) -> bool {
    extension matches Some(ext) && lowered(ext) == lowered("toml"@)
}

/// Whether an extension is that of a file in TOML.
pub fn is_toml_extension(extension: Option<&str>) -> (result: bool)
    ensures
        result == is_toml(
            match extension {
                Some(ext) => Some(ext@),
                None => None,
            },
        ),
{
    match extension {
        Some(ext) => ext.eq_ignore_ascii_case("toml"),
        None => false,
    }
}

/// Whether a configuration file is written in TOML, as its extension tells. Of a path that platforms
/// read differently nothing is said.
pub fn path_is_toml(path: &str) -> (result: bool)
    ensures
        is_plain(path@) ==> result == is_toml(extension(path@)),
{
    match path_extension(path) {
        Some(ext) => is_toml_extension(Some(ext.as_str())),
        None => is_toml_extension(None),
    }
}

// ---------------------------------------------------------------------------------------------
// Laws
// ---------------------------------------------------------------------------------------------

pub(crate) proof fn lemma_listed_once(dirs: Seq<Seq<Seq<char>>>, count: int)
    requires
        count <= dirs.len(),
    ensures
        listed_once(dirs, count).no_duplicates(),
        forall|k: int| 0 <= k < count ==> listed_once(dirs, count).contains(#[trigger] dirs[k]),
    decreases count,
{
    if count > 0 {
        lemma_listed_once(dirs, count - 1);
        let before = listed_once(dirs, count - 1);
        let after = listed_once(dirs, count);
        let last = dirs[count - 1];
        if !before.contains(last) {
            assert forall|i: int, j: int| 0 <= i < after.len() && 0 <= j < after.len() && i != j implies after[i]
                != after[j] by {
                if i < before.len() && j < before.len() {
                    assert(before[i] != before[j]);
                } else if i < before.len() {
                    assert(before.contains(before[i]));
                } else {
                    assert(before.contains(before[j]));
                }
            }
            assert forall|k: int| 0 <= k < count implies after.contains(#[trigger] dirs[k]) by {
                if k < count - 1 {
                    let at = choose|at: int| 0 <= at < before.len() && before[at] == dirs[k];
                    assert(after[at] == dirs[k]);
                } else {
                    assert(after[before.len() as int] == dirs[k]);
                }
            }
        }
    }
}

/// No log directory is listed twice, and the directory for whole turns is always among them.
pub proof fn law_log_dirs_are_listed_once(config: ConfigView)
    ensures
        log_dirs(config).no_duplicates(),
        config.turn_capture_dir matches Some(dir) ==> log_dirs(config).contains(components(dir)),
{
    let paths = log_paths(config);
    let dirs = match config.turn_capture_dir {
        Some(dir) => dirs_of(paths, paths.len() as int).push(components(dir)),
        None => dirs_of(paths, paths.len() as int),
    };
    lemma_listed_once(dirs, dirs.len() as int);
    if config.turn_capture_dir is Some {
        assert(dirs[dirs.len() - 1] == components(config.turn_capture_dir->0));
    }
}

/// A configuration that is taken has profiles, all of them sound, none of the settings that are
/// gone, only finite prices, and limits that leave room to work with.
pub proof fn law_taken_configurations_are_sound(
    config: PersistedConfigView,
    bind_addr: Result<Seq<char>, Seq<char>>,
    brave_base_url: Result<Seq<char>, Seq<char>>,
    upstreams: Result<Seq<UpstreamConfigView>, Seq<char>>,
    model_profiles: Result<Seq<CompiledProfileView>, Seq<char>>,
)
    requires
        configured(config, bind_addr, brave_base_url, upstreams, model_profiles) is Ok,
    ensures
        ({
            let taken = configured(
                config,
                bind_addr,
                brave_base_url,
                upstreams,
                model_profiles,
            )->Ok_0;
            &&& removed_setting(config) is None
            &&& taken.model_profiles.len() > 0
            &&& profiles_problem(
                taken.model_profiles,
                taken.upstreams,
                taken.model_profiles.len() as int,
            ) is None
            &&& taken.min_completion_tokens >= 1
            &&& taken.max_sse_frame_bytes >= 1024
            &&& taken.max_request_body_bytes >= 1024
            &&& taken.image_cache_max_size >= 1
            &&& forall|model: Seq<char>| #[trigger]
                taken.price_table.dom().contains(model) ==> taken.price_table[model].finite()
        }),
{
}

} // verus!
