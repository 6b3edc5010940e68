//! What becomes of what a user configures: it holds as it was written.
use vstd::prelude::*;

use crate::collections::{first_like, sorted_entries, value_named};
use crate::json::JsonView;
use crate::text::{decimal, digit, joined, lowered, trimmed};

use super::capabilities::{
    feature_flags, level_flags, replaced, supported_json, type_flags, CapabilitiesConfigView,
    ContextManagementCapView, EffortCapView, SimpleCapView, ThinkingCapView,
};
use super::env::{digits_value, overridden, signed_value, unsigned_value};
use super::persisted::{removed_setting, PersistedConfigView};
use super::policies::{
    backend_model, effort_policy, kwargs_policy, lemma_last_level_counts, passes_through,
    pattern_policies,
};
use super::price::ModelPriceView;
use super::profile::{filled_prefixes, same_name, CompiledProfileView, ModelProfileView};
use super::reasoning::{tidy_levels, ReasoningConfigView};
use super::roles::{is_tag_name, rule_problem, RoleRuleView};
use super::routing::{
    advertised, exact_keys, has_key, has_key_like, is_served_by, lemma_first_place,
};
use super::upstream::{
    lemma_each_upstream, parsed_upstream, parsed_upstreams, PersistedUpstreamView,
    UpstreamConfigView,
};
use super::validation::profiles_problem;
use super::{
    configured, dir_of, dirs_of, lemma_listed_once, log_dirs, log_paths, upstream_log_paths, Action,
    ConfigView, EffortLevel, ThinkingType,
};

verus! {

// ---------------------------------------------------------------------------------------------
// Numbers
// ---------------------------------------------------------------------------------------------

proof fn lemma_digits(n: nat)
    ensures
        digits_value(decimal(n)) == Some(n),
        decimal(n).len() > 0,
        decimal(n)[0] != '+',
        decimal(n)[0] != '-',
    decreases n,
{
    if n >= 10 {
        lemma_digits(n / 10);
        let last = digit(n as int % 10);
        assert(decimal(n).drop_last() =~= decimal(n / 10));
        assert(decimal(n).last() == last);
        assert(decimal(n)[0] == decimal(n / 10)[0]);
        assert(decimal(n).len() > 1);
    } else {
        assert(decimal(n).last() == digit(n as int));
    }
}

/// A number that is written in decimal is read back as it is, with a plus sign or without one, as
/// long as it is not too large; with a minus sign it is read as what lies below zero.
pub proof fn law_numbers_are_read_as_written(n: nat, max: nat)
    ensures
        unsigned_value(decimal(n), max) == (if n <= max {
            Some(n)
        } else {
            None
        }),
        unsigned_value(seq!['+'] + decimal(n), max) == unsigned_value(decimal(n), max),
        unsigned_value(seq!['-'] + decimal(n), max) is None,
        n <= i64::MAX ==> signed_value(decimal(n)) == Some(n as int),
        n <= i64::MAX ==> signed_value(seq!['-'] + decimal(n)) == Some(-(n as int)),
{
    lemma_digits(n);
    assert((seq!['+'] + decimal(n)).drop_first() =~= decimal(n));
    assert((seq!['-'] + decimal(n)).drop_first() =~= decimal(n));
    let negative = seq!['-'] + decimal(n);
    assert(negative[0] == '-');
    lemma_other_first(negative);
}

/// Text that begins with something else than a digit is no number.
proof fn lemma_other_first(text: Seq<char>)
    requires
        text.len() > 0,
        !super::env::is_digit(text[0]),
    ensures
        digits_value(text) is None,
    decreases text.len(),
{
    if text.len() > 1 {
        lemma_other_first(text.drop_last());
    }
}

// ---------------------------------------------------------------------------------------------
// Variables of the environment
// ---------------------------------------------------------------------------------------------

/// Whether a variable is set to something that is not blank.
pub open spec fn is_set(env: Map<Seq<char>, Seq<char>>, name: Seq<char>) -> bool {
    env.dom().contains(name) && trimmed(env[name]).len() > 0
}

/// Whether a variable is set to the number `n`.
pub open spec fn is_number(env: Map<Seq<char>, Seq<char>>, name: Seq<char>, n: nat) -> bool {
    env.dom().contains(name) && env[name] == decimal(n)
}

/// Whether a variable is set to the number `n`, be there whitespace around it.
pub open spec fn is_loose_number(env: Map<Seq<char>, Seq<char>>, name: Seq<char>, n: nat) -> bool {
    env.dom().contains(name) && trimmed(env[name]) == decimal(n)
}

/// A text in the environment holds in place of the configured one; a blank one, or none, leaves the
/// configured one.
pub proof fn law_texts_of_the_environment_hold(
    config: PersistedConfigView,
    env: Map<Seq<char>, Seq<char>>,
    kwargs: Option<Map<Seq<char>, JsonView>>,
    prices: Option<Map<Seq<char>, ModelPriceView>>,
)
    ensures
        ({
            let after = overridden(config, env, kwargs, prices);
            &&& is_set(env, "LLMCONDUIT_BIND_ADDR"@) ==> after.bind_addr == env["LLMCONDUIT_BIND_ADDR"@]
            &&& !is_set(env, "LLMCONDUIT_BIND_ADDR"@) ==> after.bind_addr == config.bind_addr
            &&& is_set(env, "LLMCONDUIT_BRAVE_BASE_URL"@) ==> after.brave_base_url == env["LLMCONDUIT_BRAVE_BASE_URL"@]
            &&& !is_set(env, "LLMCONDUIT_BRAVE_BASE_URL"@) ==> after.brave_base_url == config.brave_base_url
            &&& is_set(env, "LLMCONDUIT_TEMPLATE_FAMILY"@) ==> after.template_family == Some(env["LLMCONDUIT_TEMPLATE_FAMILY"@])
            &&& !is_set(env, "LLMCONDUIT_TEMPLATE_FAMILY"@) ==> after.template_family == config.template_family
            &&& is_set(env, "LLMCONDUIT_SYSTEM_PROMPT_PREFIX"@) ==> after.system_prompt_prefix == Some(env["LLMCONDUIT_SYSTEM_PROMPT_PREFIX"@])
            &&& !is_set(env, "LLMCONDUIT_SYSTEM_PROMPT_PREFIX"@) ==> after.system_prompt_prefix == config.system_prompt_prefix
            &&& is_set(env, "LLMCONDUIT_UPSTREAM_REQUEST_LOG_PATH"@) ==> after.upstream_request_log_path == Some(env["LLMCONDUIT_UPSTREAM_REQUEST_LOG_PATH"@])
            &&& !is_set(env, "LLMCONDUIT_UPSTREAM_REQUEST_LOG_PATH"@) ==> after.upstream_request_log_path == config.upstream_request_log_path
            &&& is_set(env, "LLMCONDUIT_TURN_CAPTURE_DIR"@) ==> after.turn_capture_dir == Some(env["LLMCONDUIT_TURN_CAPTURE_DIR"@])
            &&& !is_set(env, "LLMCONDUIT_TURN_CAPTURE_DIR"@) ==> after.turn_capture_dir == config.turn_capture_dir
            &&& is_set(env, "BRAVE_SEARCH_API_KEY"@) ==> after.brave_api_key == Some(env["BRAVE_SEARCH_API_KEY"@])
            &&& !is_set(env, "BRAVE_SEARCH_API_KEY"@) ==> after.brave_api_key == config.brave_api_key
        }),
{
}

/// A number in the environment holds in place of the configured one; no variable leaves the
/// configured one.
pub proof fn law_numbers_of_the_environment_hold(
    config: PersistedConfigView,
    env: Map<Seq<char>, Seq<char>>,
    kwargs: Option<Map<Seq<char>, JsonView>>,
    prices: Option<Map<Seq<char>, ModelPriceView>>,
    n: nat,
)
    ensures
        ({
            let after = overridden(config, env, kwargs, prices);
            &&& is_number(env, "LLMCONDUIT_UPSTREAM_FAILURE_COOLDOWN_SECS"@, n) && n <= u64::MAX ==> after.upstream_failure_cooldown_secs == n
            &&& !env.dom().contains("LLMCONDUIT_UPSTREAM_FAILURE_COOLDOWN_SECS"@) ==> after.upstream_failure_cooldown_secs == config.upstream_failure_cooldown_secs
            &&& is_number(env, "LLMCONDUIT_BRAVE_MAX_RESULTS"@, n) && n <= usize::MAX ==> after.brave_max_results == n
            &&& !env.dom().contains("LLMCONDUIT_BRAVE_MAX_RESULTS"@) ==> after.brave_max_results == config.brave_max_results
            &&& is_number(env, "LLMCONDUIT_REQUEST_TIMEOUT_SECS"@, n) && n <= u64::MAX ==> after.request_timeout_secs == n
            &&& !env.dom().contains("LLMCONDUIT_REQUEST_TIMEOUT_SECS"@) ==> after.request_timeout_secs == config.request_timeout_secs
            &&& is_number(env, "LLMCONDUIT_CONNECT_TIMEOUT_SECS"@, n) && n <= u64::MAX ==> after.connect_timeout_secs == n
            &&& !env.dom().contains("LLMCONDUIT_CONNECT_TIMEOUT_SECS"@) ==> after.connect_timeout_secs == config.connect_timeout_secs
            &&& is_number(env, "LLMCONDUIT_MAX_WEB_SEARCH_ROUNDS"@, n) && n <= usize::MAX ==> after.max_web_search_rounds == n
            &&& !env.dom().contains("LLMCONDUIT_MAX_WEB_SEARCH_ROUNDS"@) ==> after.max_web_search_rounds == config.max_web_search_rounds
            &&& is_number(env, "LLMCONDUIT_MAX_REPLAY_ENTRIES"@, n) && n <= usize::MAX ==> after.max_replay_entries == n
            &&& !env.dom().contains("LLMCONDUIT_MAX_REPLAY_ENTRIES"@) ==> after.max_replay_entries == config.max_replay_entries
            &&& is_loose_number(env, "LLMCONDUIT_MAX_SSE_FRAME_BYTES"@, n) && n <= usize::MAX && n >= 1 ==> after.max_sse_frame_bytes == n
            &&& !env.dom().contains("LLMCONDUIT_MAX_SSE_FRAME_BYTES"@) ==> after.max_sse_frame_bytes == config.max_sse_frame_bytes
            &&& is_loose_number(env, "LLMCONDUIT_MAX_SSE_FRAME_BYTES"@, 0) ==> after.max_sse_frame_bytes == config.max_sse_frame_bytes
            &&& is_loose_number(env, "LLMCONDUIT_MAX_REQUEST_BODY_BYTES"@, n) && n <= usize::MAX && n >= 1 ==> after.max_request_body_bytes == n
            &&& !env.dom().contains("LLMCONDUIT_MAX_REQUEST_BODY_BYTES"@) ==> after.max_request_body_bytes == config.max_request_body_bytes
            &&& is_loose_number(env, "LLMCONDUIT_MAX_REQUEST_BODY_BYTES"@, 0) ==> after.max_request_body_bytes == config.max_request_body_bytes
            &&& is_loose_number(env, "LLMCONDUIT_IMAGE_CACHE_MAX_SIZE"@, n) && n <= usize::MAX && n >= 1 ==> after.image_cache_max_size == n
            &&& !env.dom().contains("LLMCONDUIT_IMAGE_CACHE_MAX_SIZE"@) ==> after.image_cache_max_size == config.image_cache_max_size
            &&& is_loose_number(env, "LLMCONDUIT_IMAGE_CACHE_MAX_SIZE"@, 0) ==> after.image_cache_max_size == config.image_cache_max_size
            &&& is_loose_number(env, "LLMCONDUIT_IMAGE_CACHE_TTL_SECS"@, n) && n <= u64::MAX ==> after.image_cache_ttl_secs == n
            &&& !env.dom().contains("LLMCONDUIT_IMAGE_CACHE_TTL_SECS"@) ==> after.image_cache_ttl_secs == config.image_cache_ttl_secs
            &&& is_loose_number(env, "LLMCONDUIT_MIN_COMPLETION_TOKENS"@, n) && 1 <= n <= i64::MAX
                ==> after.min_completion_tokens == n
            &&& is_loose_number(env, "LLMCONDUIT_MIN_COMPLETION_TOKENS"@, 0)
                ==> after.min_completion_tokens == config.min_completion_tokens
            &&& !env.dom().contains("LLMCONDUIT_MIN_COMPLETION_TOKENS"@)
                ==> after.min_completion_tokens == config.min_completion_tokens
            &&& is_loose_number(env, "LLMCONDUIT_DEBUG_LOG_MAX_AGE_HOURS"@, n) && n <= u64::MAX
                ==> after.debug_log_max_age_hours == Some(n as u64)
            &&& !env.dom().contains("LLMCONDUIT_DEBUG_LOG_MAX_AGE_HOURS"@)
                ==> after.debug_log_max_age_hours == config.debug_log_max_age_hours
        }),
{
    law_numbers_are_read_as_written(n, u64::MAX as nat);
    law_numbers_are_read_as_written(n, usize::MAX as nat);
    law_numbers_are_read_as_written(0, usize::MAX as nat);
    law_numbers_are_read_as_written(0, u64::MAX as nat);
}

/// What the environment says of flattening holds, and so do the arguments and prices that it gives.
pub proof fn law_rest_of_the_environment_holds(
    config: PersistedConfigView,
    env: Map<Seq<char>, Seq<char>>,
    kwargs: Option<Map<Seq<char>, JsonView>>,
    prices: Option<Map<Seq<char>, ModelPriceView>>,
    model: Seq<char>,
)
    ensures
        ({
            let name = "LLMCONDUIT_FLATTEN_CONTENT"@;
            let after = overridden(config, env, kwargs, prices);
            &&& env.dom().contains(name) && env[name] == "true"@ ==> after.flatten_content
            &&& env.dom().contains(name) && env[name] == "false"@ ==> !after.flatten_content
            &&& !env.dom().contains(name) ==> after.flatten_content == config.flatten_content
            &&& kwargs is Some ==> Some(after.upstream_chat_kwargs) == kwargs
            &&& kwargs is None ==> after.upstream_chat_kwargs == config.upstream_chat_kwargs
            &&& is_set(env, "LLMCONDUIT_PRICE_TABLE_JSON"@) && prices is Some
                && prices->0.dom().contains(model) && prices->0[model].finite()
                ==> after.price_table.dom().contains(model) && after.price_table[model]
                == prices->0[model]
            &&& !is_set(env, "LLMCONDUIT_PRICE_TABLE_JSON"@) || prices is None ==> after.price_table
                == config.price_table
        }),
{
    reveal_strlit("true");
    reveal_strlit("false");
    assert("true"@.len() == 4);
    assert("false"@.len() == 5);
}

// ---------------------------------------------------------------------------------------------
// Upstreams
// ---------------------------------------------------------------------------------------------

/// Each declared upstream is there under its name, at its own address, with its own arguments and its
/// own log, in the order of the declarations.
pub proof fn law_upstreams_are_those_declared(
    entries: Seq<PersistedUpstreamView>,
    urls: Seq<Result<Seq<char>, Seq<char>>>,
    env: Map<Seq<char>, Seq<char>>,
    at: int,
)
    requires
        parsed_upstreams(entries, urls, env, entries.len() as int) is Ok,
        0 <= at < entries.len(),
    ensures
        ({
            let upstreams = parsed_upstreams(entries, urls, env, entries.len() as int)->Ok_0;
            let entry = entries[at];
            let upstream = upstreams[at];
            &&& upstreams.len() == entries.len()
            &&& upstream.name == trimmed(entry.name)
            &&& urls[at] == Ok::<Seq<char>, Seq<char>>(upstream.url)
            &&& upstream.chat_kwargs == entry.chat_kwargs
            &&& entry.request_log_path is None ==> upstream.request_log_path is None
            &&& entry.request_log_path matches Some(path) ==> upstream.request_log_path == (
            if trimmed(path).len() > 0 {
                Some(trimmed(path))
            } else {
                None
            })
            &&& entry.upstream_model is None
            &&& entry.fallback_upstreams is None
        }),
{
    lemma_each_upstream(entries, urls, env, entries.len() as int);
    assert(parsed_upstream(entries, urls, env, at) == Ok::<UpstreamConfigView, Seq<char>>(
        parsed_upstreams(entries, urls, env, entries.len() as int)->Ok_0[at],
    ));
}

// ---------------------------------------------------------------------------------------------
// Whole configurations
// ---------------------------------------------------------------------------------------------

/// A configuration that is taken holds as it was written: texts trimmed where blanks mean nothing,
/// and limits raised to what the gateway needs.
pub proof fn law_settings_are_taken_over(
    config: PersistedConfigView,
    bind_addr: Result<Seq<char>, Seq<char>>,
    brave_base_url: Result<Seq<char>, Seq<char>>,
    upstreams: Result<Seq<UpstreamConfigView>, Seq<char>>,
    model_profiles: Result<Seq<CompiledProfileView>, Seq<char>>,
)
    requires
        configured(config, bind_addr, brave_base_url, upstreams, model_profiles) is Ok,
    ensures
        ({
            let taken = configured(
                config,
                bind_addr,
                brave_base_url,
                upstreams,
                model_profiles,
            )->Ok_0;
            &&& bind_addr == Ok::<Seq<char>, Seq<char>>(taken.bind_addr)
            &&& brave_base_url == Ok::<Seq<char>, Seq<char>>(taken.brave_base_url)
            &&& upstreams == Ok::<Seq<UpstreamConfigView>, Seq<char>>(taken.upstreams)
            &&& model_profiles == Ok::<Seq<CompiledProfileView>, Seq<char>>(taken.model_profiles)
            &&& config.system_prompt_prefix is None ==> taken.system_prompt_prefix is None
            &&& config.system_prompt_prefix matches Some(prefix) ==> trimmed(prefix).len() > 0
                ==> taken.system_prompt_prefix == Some(prefix)
            &&& config.upstream_request_log_path matches Some(path) ==> trimmed(path).len() > 0
                ==> taken.upstream_request_log_path == Some(trimmed(path))
            &&& config.turn_capture_dir matches Some(path) ==> trimmed(path).len() > 0
                ==> taken.turn_capture_dir == Some(trimmed(path))
            &&& config.turn_capture_dir is None ==> taken.turn_capture_dir is None
            &&& config.brave_api_key matches Some(key) ==> trimmed(key).len() > 0
                ==> taken.brave_api_key == Some(trimmed(key))
            &&& config.brave_api_key is None ==> taken.brave_api_key is None
            &&& taken.upstream_chat_kwargs == config.upstream_chat_kwargs
            &&& taken.upstream_failure_cooldown_secs == config.upstream_failure_cooldown_secs
            &&& taken.brave_max_results == config.brave_max_results
            &&& taken.request_timeout.secs == config.request_timeout_secs
            &&& taken.request_timeout.nanos == 0
            &&& taken.connect_timeout_secs == config.connect_timeout_secs
            &&& taken.max_web_search_rounds == config.max_web_search_rounds
            &&& taken.flatten_content == config.flatten_content
            &&& taken.max_replay_entries == config.max_replay_entries
            &&& taken.debug_log_max_age_hours == config.debug_log_max_age_hours
            &&& taken.image_cache_ttl_secs == config.image_cache_ttl_secs
            &&& config.min_completion_tokens >= 1 ==> taken.min_completion_tokens
                == config.min_completion_tokens
            &&& config.max_sse_frame_bytes >= 1024 ==> taken.max_sse_frame_bytes
                == config.max_sse_frame_bytes
            &&& config.max_request_body_bytes >= 1024 ==> taken.max_request_body_bytes
                == config.max_request_body_bytes
            &&& config.image_cache_max_size >= 1 ==> taken.image_cache_max_size
                == config.image_cache_max_size
            &&& config.min_completion_tokens < 1 ==> taken.min_completion_tokens == 1
            &&& config.max_sse_frame_bytes < 1024 ==> taken.max_sse_frame_bytes == 1024
            &&& config.max_request_body_bytes < 1024 ==> taken.max_request_body_bytes == 1024
            &&& config.image_cache_max_size < 1 ==> taken.image_cache_max_size == 1
        }),
{
}

/// A configuration is taken exactly if it has no setting that is gone, its addresses, upstreams and
/// profiles can be read, it has a profile, and no profile is at fault.
pub proof fn law_sound_configurations_are_taken(
    config: PersistedConfigView,
    bind_addr: Result<Seq<char>, Seq<char>>,
    brave_base_url: Result<Seq<char>, Seq<char>>,
    upstreams: Result<Seq<UpstreamConfigView>, Seq<char>>,
    model_profiles: Result<Seq<CompiledProfileView>, Seq<char>>,
)
    ensures
        configured(config, bind_addr, brave_base_url, upstreams, model_profiles) is Ok <==> {
            &&& config.upstream_base_url is None
            &&& config.upstream_api_key is None
            &&& config.upstream_model is None
            &&& config.fallback_upstreams is None
            &&& config.model_routes is None
            &&& config.image_agent_enabled is None
            &&& config.vision_url is None
            &&& config.vision_model is None
            &&& config.unsupported_image_policy is None
            &&& bind_addr is Ok
            &&& brave_base_url is Ok
            &&& upstreams is Ok
            &&& model_profiles is Ok
            &&& model_profiles->Ok_0.len() > 0
            &&& profiles_problem(
                model_profiles->Ok_0,
                upstreams->Ok_0,
                model_profiles->Ok_0.len() as int,
            ) is None
        },
        removed_setting(config) is None && bind_addr is Ok && brave_base_url is Ok && upstreams
            is Err ==> configured(config, bind_addr, brave_base_url, upstreams, model_profiles)
            == Err::<ConfigView, Seq<char>>(upstreams->Err_0),
{
}

proof fn lemma_upstream_logs(upstreams: Seq<UpstreamConfigView>, count: int, at: int)
    requires
        0 <= at < count <= upstreams.len(),
        upstreams[at].request_log_path is Some,
    ensures
        upstream_log_paths(upstreams, count).contains(upstreams[at].request_log_path->0),
    decreases count,
{
    let all = upstream_log_paths(upstreams, count);
    let before = upstream_log_paths(upstreams, count - 1);
    let path = upstreams[at].request_log_path->0;
    if at < count - 1 {
        lemma_upstream_logs(upstreams, count - 1, at);
        let k = choose|k: int| 0 <= k < before.len() && before[k] == path;
        assert(all[k] == path);
    } else {
        assert(all.last() == path);
    }
}

proof fn lemma_dirs(paths: Seq<Seq<char>>, count: int, at: int)
    requires
        0 <= at < count <= paths.len(),
        dir_of(paths[at]) is Some,
    ensures
        dirs_of(paths, count).contains(dir_of(paths[at])->0),
    decreases count,
{
    let all = dirs_of(paths, count);
    let before = dirs_of(paths, count - 1);
    let dir = dir_of(paths[at])->0;
    if at < count - 1 {
        lemma_dirs(paths, count - 1, at);
        let k = choose|k: int| 0 <= k < before.len() && before[k] == dir;
        assert(all[k] == dir);
    } else {
        assert(all.last() == dir);
    }
}

/// The directory of the log of each upstream is among those that logs are written to.
pub proof fn law_upstream_logs_have_their_directories(config: ConfigView, at: int)
    requires
        0 <= at < config.upstreams.len(),
        config.upstreams[at].request_log_path is Some,
        dir_of(config.upstreams[at].request_log_path->0) is Some,
    ensures
        log_dirs(config).contains(dir_of(config.upstreams[at].request_log_path->0)->0),
{
    let paths = log_paths(config);
    let path = config.upstreams[at].request_log_path->0;
    lemma_upstream_logs(config.upstreams, config.upstreams.len() as int, at);
    let k = choose|k: int| 0 <= k < paths.len() && paths[k] == path;
    lemma_dirs(paths, paths.len() as int, k);
    let own = dirs_of(paths, paths.len() as int);
    let dirs = match config.turn_capture_dir {
        Some(dir) => own.push(crate::paths::components(dir)),
        None => own,
    };
    let dir = dir_of(path)->0;
    let place = choose|place: int| 0 <= place < own.len() && own[place] == dir;
    assert(dirs[place] == dir);
    lemma_listed_once(dirs, dirs.len() as int);
}

// ---------------------------------------------------------------------------------------------
// Capabilities
// ---------------------------------------------------------------------------------------------

proof fn lemma_capability_names_differ()
    ensures
        "batch"@ != "citations"@,
        "batch"@ != "code_execution"@,
        "batch"@ != "image_input"@,
        "batch"@ != "pdf_input"@,
        "batch"@ != "structured_outputs"@,
        "batch"@ != "thinking"@,
        "batch"@ != "effort"@,
        "batch"@ != "context_management"@,
        "citations"@ != "code_execution"@,
        "citations"@ != "image_input"@,
        "citations"@ != "pdf_input"@,
        "citations"@ != "structured_outputs"@,
        "citations"@ != "thinking"@,
        "citations"@ != "effort"@,
        "citations"@ != "context_management"@,
        "code_execution"@ != "image_input"@,
        "code_execution"@ != "pdf_input"@,
        "code_execution"@ != "structured_outputs"@,
        "code_execution"@ != "thinking"@,
        "code_execution"@ != "effort"@,
        "code_execution"@ != "context_management"@,
        "image_input"@ != "pdf_input"@,
        "image_input"@ != "structured_outputs"@,
        "image_input"@ != "thinking"@,
        "image_input"@ != "effort"@,
        "image_input"@ != "context_management"@,
        "pdf_input"@ != "structured_outputs"@,
        "pdf_input"@ != "thinking"@,
        "pdf_input"@ != "effort"@,
        "pdf_input"@ != "context_management"@,
        "structured_outputs"@ != "thinking"@,
        "structured_outputs"@ != "effort"@,
        "structured_outputs"@ != "context_management"@,
        "thinking"@ != "effort"@,
        "thinking"@ != "context_management"@,
        "effort"@ != "context_management"@,
{
    reveal_strlit("batch");
    reveal_strlit("citations");
    reveal_strlit("code_execution");
    reveal_strlit("image_input");
    reveal_strlit("pdf_input");
    reveal_strlit("structured_outputs");
    reveal_strlit("thinking");
    reveal_strlit("effort");
    reveal_strlit("context_management");
    assert("batch"@.len() == 5 && "batch"@[0] == 'b');
    assert("citations"@.len() == 9 && "citations"@[0] == 'c');
    assert("code_execution"@.len() == 14 && "code_execution"@[0] == 'c');
    assert("image_input"@.len() == 11 && "image_input"@[0] == 'i');
    assert("pdf_input"@.len() == 9 && "pdf_input"@[0] == 'p');
    assert("structured_outputs"@.len() == 18 && "structured_outputs"@[0] == 's');
    assert("thinking"@.len() == 8 && "thinking"@[0] == 't');
    assert("effort"@.len() == 6 && "effort"@[0] == 'e');
    assert("context_management"@.len() == 18 && "context_management"@[0] == 'c');
}

/// What stands under `key` once `value`, if there is one, stands under `name`.
spec fn put_under(
    before: Option<JsonView>,
    name: Seq<char>,
    value: Option<JsonView>,
    key: Seq<char>,
) -> Option<JsonView> {
    if key == name && value is Some {
        value
    } else {
        before
    }
}

proof fn lemma_replaced(
    base: Map<Seq<char>, JsonView>,
    name: Seq<char>,
    value: Option<JsonView>,
    key: Seq<char>,
)
    ensures
        JsonView::Object(replaced(base, name, value)).get(key) == put_under(
            JsonView::Object(base).get(key),
            name,
            value,
            key,
        ),
{
}

proof fn lemma_over(config: CapabilitiesConfigView, base: Map<Seq<char>, JsonView>, key: Seq<char>)
    ensures
        JsonView::Object(config.over(base)).get(key) == ({
            let b0 = JsonView::Object(base).get(key);
            let b1 = put_under(
                b0,
                "batch"@,
                match config.batch {
                    Some(cap) => Some(cap.wire()),
                    None => None,
                },
                key,
            );
            let b2 = put_under(
                b1,
                "citations"@,
                match config.citations {
                    Some(cap) => Some(cap.wire()),
                    None => None,
                },
                key,
            );
            let b3 = put_under(
                b2,
                "code_execution"@,
                match config.code_execution {
                    Some(cap) => Some(cap.wire()),
                    None => None,
                },
                key,
            );
            let b4 = put_under(
                b3,
                "image_input"@,
                match config.image_input {
                    Some(cap) => Some(cap.wire()),
                    None => None,
                },
                key,
            );
            let b5 = put_under(
                b4,
                "pdf_input"@,
                match config.pdf_input {
                    Some(cap) => Some(cap.wire()),
                    None => None,
                },
                key,
            );
            let b6 = put_under(
                b5,
                "structured_outputs"@,
                match config.structured_outputs {
                    Some(cap) => Some(cap.wire()),
                    None => None,
                },
                key,
            );
            let b7 = put_under(
                b6,
                "thinking"@,
                match config.thinking {
                    Some(cap) => Some(cap.wire()),
                    None => None,
                },
                key,
            );
            let b8 = put_under(
                b7,
                "effort"@,
                match config.effort {
                    Some(cap) => Some(cap.wire()),
                    None => None,
                },
                key,
            );
            let b9 = put_under(
                b8,
                "context_management"@,
                match config.context_management {
                    Some(cap) => Some(cap.wire()),
                    None => None,
                },
                key,
            );
            b9
        }),
{
    let m0 = base;
    let v1 = match config.batch {
        Some(cap) => Some(cap.wire()),
        None => None,
    };
    lemma_replaced(m0, "batch"@, v1, key);
    let m1 = replaced(m0, "batch"@, v1);
    let v2 = match config.citations {
        Some(cap) => Some(cap.wire()),
        None => None,
    };
    lemma_replaced(m1, "citations"@, v2, key);
    let m2 = replaced(m1, "citations"@, v2);
    let v3 = match config.code_execution {
        Some(cap) => Some(cap.wire()),
        None => None,
    };
    lemma_replaced(m2, "code_execution"@, v3, key);
    let m3 = replaced(m2, "code_execution"@, v3);
    let v4 = match config.image_input {
        Some(cap) => Some(cap.wire()),
        None => None,
    };
    lemma_replaced(m3, "image_input"@, v4, key);
    let m4 = replaced(m3, "image_input"@, v4);
    let v5 = match config.pdf_input {
        Some(cap) => Some(cap.wire()),
        None => None,
    };
    lemma_replaced(m4, "pdf_input"@, v5, key);
    let m5 = replaced(m4, "pdf_input"@, v5);
    let v6 = match config.structured_outputs {
        Some(cap) => Some(cap.wire()),
        None => None,
    };
    lemma_replaced(m5, "structured_outputs"@, v6, key);
    let m6 = replaced(m5, "structured_outputs"@, v6);
    let v7 = match config.thinking {
        Some(cap) => Some(cap.wire()),
        None => None,
    };
    lemma_replaced(m6, "thinking"@, v7, key);
    let m7 = replaced(m6, "thinking"@, v7);
    let v8 = match config.effort {
        Some(cap) => Some(cap.wire()),
        None => None,
    };
    lemma_replaced(m7, "effort"@, v8, key);
    let m8 = replaced(m7, "effort"@, v8);
    let v9 = match config.context_management {
        Some(cap) => Some(cap.wire()),
        None => None,
    };
    lemma_replaced(m8, "context_management"@, v9, key);
    let m9 = replaced(m8, "context_management"@, v9);
    assert(config.over(base) == m9);
}

/// Each capability that is configured is advertised as it is configured, in place of the one that
/// was there; each that is not is left as it was.
pub proof fn law_configured_capabilities_are_advertised(
    config: CapabilitiesConfigView,
    base: Map<Seq<char>, JsonView>,
)
    ensures
        ({
            let after = JsonView::Object(config.over(base));
            let before = JsonView::Object(base);
            &&& after.get("batch"@) == (match config.batch {
                Some(cap) => Some(cap.wire()),
                None => before.get("batch"@),
            })
            &&& after.get("citations"@) == (match config.citations {
                Some(cap) => Some(cap.wire()),
                None => before.get("citations"@),
            })
            &&& after.get("code_execution"@) == (match config.code_execution {
                Some(cap) => Some(cap.wire()),
                None => before.get("code_execution"@),
            })
            &&& after.get("image_input"@) == (match config.image_input {
                Some(cap) => Some(cap.wire()),
                None => before.get("image_input"@),
            })
            &&& after.get("pdf_input"@) == (match config.pdf_input {
                Some(cap) => Some(cap.wire()),
                None => before.get("pdf_input"@),
            })
            &&& after.get("structured_outputs"@) == (match config.structured_outputs {
                Some(cap) => Some(cap.wire()),
                None => before.get("structured_outputs"@),
            })
            &&& after.get("thinking"@) == (match config.thinking {
                Some(cap) => Some(cap.wire()),
                None => before.get("thinking"@),
            })
            &&& after.get("effort"@) == (match config.effort {
                Some(cap) => Some(cap.wire()),
                None => before.get("effort"@),
            })
            &&& after.get("context_management"@) == (match config.context_management {
                Some(cap) => Some(cap.wire()),
                None => before.get("context_management"@),
            })
        }),
{
    lemma_capability_names_differ();
    lemma_over(config, base, "batch"@);
    lemma_over(config, base, "citations"@);
    lemma_over(config, base, "code_execution"@);
    lemma_over(config, base, "image_input"@);
    lemma_over(config, base, "pdf_input"@);
    lemma_over(config, base, "structured_outputs"@);
    lemma_over(config, base, "thinking"@);
    lemma_over(config, base, "effort"@);
    lemma_over(config, base, "context_management"@);
}

/// Whether JSON says that something is supported, or not.
pub open spec fn says_supported(value: Option<JsonView>, supported: bool) -> bool {
    value matches Some(told) && told.get("supported"@) == Some(JsonView::Bool(supported))
}

/// A capability says whether it is supported.
pub proof fn law_support_is_told(
    simple: SimpleCapView,
    thinking: ThinkingCapView,
    effort: EffortCapView,
    context: ContextManagementCapView,
)
    ensures
        says_supported(Some(simple.wire()), simple.supported),
        says_supported(Some(thinking.wire()), thinking.supported),
        says_supported(Some(effort.wire()), effort.supported),
        says_supported(Some(context.wire()), context.supported),
{
    reveal_strlit("supported");
    reveal_strlit("types");
    assert("supported"@.len() == 9);
    assert("types"@.len() == 5);
    lemma_levels_told(effort.levels, effort.supported, effort.levels.len() as int, 0);
    lemma_features_told(context.features, context.supported, context.features.len() as int, 0);
}

proof fn lemma_level_names(level: EffortLevel)
    ensures
        level.name() != "supported"@,
{
    reveal_strlit("supported");
    reveal_strlit("max");
    reveal_strlit("xhigh");
    reveal_strlit("high");
    reveal_strlit("medium");
    reveal_strlit("low");
    reveal_strlit("minimal");
    reveal_strlit("none");
    assert("supported"@.len() == 9);
}

proof fn lemma_levels_told(levels: Seq<EffortLevel>, supported: bool, count: int, at: int)
    requires
        count <= levels.len(),
    ensures
        level_flags(levels, supported, count).dom().contains("supported"@),
        level_flags(levels, supported, count)["supported"@] == JsonView::Bool(supported),
        0 <= at < count ==> level_flags(levels, supported, count).dom().contains(levels[at].name())
            && level_flags(levels, supported, count)[levels[at].name()] == supported_json(supported),
    decreases count,
{
    if count > 0 {
        lemma_levels_told(levels, supported, count - 1, at);
        lemma_level_names(levels[count - 1]);
    }
}

proof fn lemma_features_told(
    features: Seq<super::ContextFeature>,
    supported: bool,
    count: int,
    at: int,
)
    requires
        count <= features.len(),
    ensures
        feature_flags(features, supported, count).dom().contains("supported"@),
        feature_flags(features, supported, count)["supported"@] == JsonView::Bool(supported),
        0 <= at < count ==> feature_flags(features, supported, count).dom().contains(
            features[at].name(),
        ) && feature_flags(features, supported, count)[features[at].name()] == supported_json(
            supported,
        ),
    decreases count,
{
    reveal_strlit("supported");
    reveal_strlit("clear_thinking_20251015");
    reveal_strlit("clear_tool_uses_20250919");
    reveal_strlit("compact_20260112");
    assert("supported"@.len() == 9);
    if count > 0 {
        lemma_features_told(features, supported, count - 1, at);
    }
}

proof fn lemma_types_told(types: Seq<ThinkingType>, supported: bool, count: int, at: int)
    requires
        0 <= at < count <= types.len(),
    ensures
        type_flags(types, supported, count).dom().contains(types[at].name()),
        type_flags(types, supported, count)[types[at].name()] == supported_json(supported),
    decreases count,
{
    if at < count - 1 {
        lemma_types_told(types, supported, count - 1, at);
    }
}

/// Each configured way of thinking, level of effort and feature is listed by its name, with the
/// support of its capability.
pub proof fn law_details_of_capabilities_are_told(
    thinking: ThinkingCapView,
    effort: EffortCapView,
    context: ContextManagementCapView,
    at: int,
)
    ensures
        0 <= at < thinking.types.len() ==> thinking.wire().get("types"@) is Some && says_supported(
            thinking.wire().get("types"@)->0.get(thinking.types[at].name()),
            thinking.supported,
        ),
        0 <= at < effort.levels.len() ==> says_supported(
            effort.wire().get(effort.levels[at].name()),
            effort.supported,
        ),
        0 <= at < context.features.len() ==> says_supported(
            context.wire().get(context.features[at].name()),
            context.supported,
        ),
{
    reveal_strlit("supported");
    reveal_strlit("types");
    assert("supported"@.len() == 9);
    assert("types"@.len() == 5);
    if 0 <= at < thinking.types.len() {
        lemma_types_told(thinking.types, thinking.supported, thinking.types.len() as int, at);
    }
    lemma_levels_told(effort.levels, effort.supported, effort.levels.len() as int, at);
    lemma_features_told(context.features, context.supported, context.features.len() as int, at);
}

/// The capabilities that are advertised for a model are those of the profile that has its name as
/// the key, if there is one; else those of a profile that it serves; else those of the profile for
/// everything.
pub proof fn law_capabilities_are_those_of_the_profile(
    profiles: Seq<CompiledProfileView>,
    id: Seq<char>,
    at: int,
)
    requires
        0 <= at < profiles.len(),
    ensures
        trimmed(profiles[at].key) == trimmed(id) && (forall|k: int|
            0 <= k < at ==> trimmed((#[trigger] profiles[k]).key) != trimmed(id)) ==> advertised(
            profiles,
            id,
        ) == profiles[at].profile.capabilities,
        (forall|k: int|
            0 <= k < profiles.len() ==> !same_name((#[trigger] profiles[k]).key, id)
                && trimmed(profiles[k].key) != trimmed(id)) && (profiles[at].profile.upstream_model
            == Some(id)) && (forall|k: int|
            0 <= k < at ==> (#[trigger] profiles[k]).profile.upstream_model is None)
            ==> advertised(profiles, id) == profiles[at].profile.capabilities,
{
    if trimmed(profiles[at].key) == trimmed(id) && (forall|k: int|
        0 <= k < at ==> trimmed((#[trigger] profiles[k]).key) != trimmed(id)) {
        lemma_first_place(profiles, has_key(id), at);
    }
    if (forall|k: int|
        0 <= k < profiles.len() ==> !same_name((#[trigger] profiles[k]).key, id)
            && trimmed(profiles[k].key) != trimmed(id)) && profiles[at].profile.upstream_model
        == Some(id) && (forall|k: int|
        0 <= k < at ==> (#[trigger] profiles[k]).profile.upstream_model is None) {
        lemma_first_place(profiles, has_key(id), profiles.len() as int);
        lemma_first_place(profiles, has_key_like(id), profiles.len() as int);
        lemma_first_place(profiles, is_served_by(id), at);
    }
}

// ---------------------------------------------------------------------------------------------
// Roles, arguments and reasoning
// ---------------------------------------------------------------------------------------------

/// A rule is sound exactly if it names a role to rewrite to just when it rewrites, if its tag and the
/// attributes of the tag have names that a tag can have, and if it has no attributes without a tag.
pub proof fn law_sound_rules_are_taken(rule: RoleRuleView)
    ensures
        rule_problem(rule) is None <==> {
            &&& rule.action == Action::Rewrite ==> rule.target_role is Some && trimmed(
                rule.target_role->0,
            ).len() > 0
            &&& rule.action != Action::Rewrite ==> rule.target_role is None
            &&& rule.tag is Some ==> is_tag_name(rule.tag->0)
            &&& rule.tag is None ==> rule.tag_attributes == Map::<Seq<char>, Seq<char>>::empty()
            &&& forall|key: Seq<char>| #[trigger]
                rule.tag_attributes.dom().contains(key) ==> is_tag_name(key)
        },
{
}

/// The arguments of a profile are sent as they are configured; a profile without any sends none.
pub proof fn law_arguments_are_sent_as_configured(profile: ModelProfileView)
    ensures
        kwargs_policy(profile) matches Some(policy) ==> policy.kwargs
            == profile.upstream_chat_kwargs,
        kwargs_policy(profile) is None <==> profile.upstream_chat_kwargs == Map::<
            Seq<char>,
            JsonView,
        >::empty(),
{
}

/// Each profile that passes the requested model through keeps its policy under its own pattern, in
/// the order of the profiles, and no other profile has one there.
pub proof fn law_patterns_keep_their_policies<V>(
    profiles: Seq<CompiledProfileView>,
    extract: spec_fn(ModelProfileView) -> Option<V>,
    count: int,
)
    requires
        0 <= count <= profiles.len(),
    ensures
        forall|k: int|
            0 <= k < count && passes_through(#[trigger] profiles[k]) && extract(
                profiles[k].profile,
            ) is Some ==> pattern_policies(profiles, extract, count).contains(
                (profiles[k].glob->0, extract(profiles[k].profile)->0),
            ),
        forall|i: int|
            0 <= i < pattern_policies(profiles, extract, count).len() ==> exists|k: int|
                0 <= k < count && passes_through(#[trigger] profiles[k]) && extract(
                    profiles[k].profile,
                ) is Some && (#[trigger] pattern_policies(profiles, extract, count)[i]) == (
                    profiles[k].glob->0,
                    extract(profiles[k].profile)->0,
                ),
    decreases count,
{
    if count > 0 {
        law_patterns_keep_their_policies(profiles, extract, count - 1);
        let before = pattern_policies(profiles, extract, count - 1);
        let all = pattern_policies(profiles, extract, count);
        assert forall|k: int|
            0 <= k < count && passes_through(#[trigger] profiles[k]) && extract(
                profiles[k].profile,
            ) is Some implies all.contains(
            (profiles[k].glob->0, extract(profiles[k].profile)->0),
        ) by {
            let entry = (profiles[k].glob->0, extract(profiles[k].profile)->0);
            if k < count - 1 {
                let i = choose|i: int| 0 <= i < before.len() && before[i] == entry;
                assert(all[i] == entry);
            } else {
                assert(all.last() == entry);
            }
        }
        assert forall|i: int| 0 <= i < all.len() implies exists|k: int|
            0 <= k < count && passes_through(#[trigger] profiles[k]) && extract(
                profiles[k].profile,
            ) is Some && (#[trigger] all[i]) == (
                profiles[k].glob->0,
                extract(profiles[k].profile)->0,
            ) by {
            if i < before.len() {
                assert(all[i] == before[i]);
                let k = choose|k: int|
                    0 <= k < count - 1 && passes_through(#[trigger] profiles[k]) && extract(
                        profiles[k].profile,
                    ) is Some && before[i] == (
                        profiles[k].glob->0,
                        extract(profiles[k].profile)->0,
                    );
                assert(passes_through(profiles[k]));
            } else {
                assert(passes_through(profiles[count - 1]));
            }
        }
    }
}

proof fn lemma_tidy(entries: Seq<(Seq<char>, Seq<char>)>, count: int, at: int)
    requires
        0 <= at < count <= entries.len(),
        trimmed(entries[at].0).len() > 0,
        trimmed(entries[at].1).len() > 0,
        forall|k: int|
            at < k < count ==> lowered(trimmed((#[trigger] entries[k]).0)) != lowered(
                trimmed(entries[at].0),
            ),
    ensures
        tidy_levels(entries, count).dom().contains(lowered(trimmed(entries[at].0))),
        tidy_levels(entries, count)[lowered(trimmed(entries[at].0))] == trimmed(entries[at].1),
    decreases count,
{
    if at < count - 1 {
        lemma_tidy(entries, count - 1, at);
    }
}

/// Each configured level stays with what it stands for, trimmed and in lower case; the default level
/// and the name of the parameter for thinking stay trimmed, and the values of the parameter as they
/// are.
pub proof fn law_levels_stay(config: ReasoningConfigView, at: int)
    requires
        ({
            let entries = sorted_entries(config.map);
            &&& 0 <= at < entries.len()
            &&& trimmed(entries[at].0).len() > 0
            &&& trimmed(entries[at].1).len() > 0
            &&& forall|k: int|
                at < k < entries.len() ==> lowered(trimmed((#[trigger] entries[k]).0)) != lowered(
                    trimmed(entries[at].0),
                )
        }),
    ensures
        ({
            let entries = sorted_entries(config.map);
            let tidy = config.tidied();
            &&& tidy.map.dom().contains(lowered(trimmed(entries[at].0)))
            &&& tidy.map[lowered(trimmed(entries[at].0))] == trimmed(entries[at].1)
            &&& config.default matches Some(level) ==> trimmed(level).len() > 0 ==> tidy.default
                == Some(trimmed(level))
            &&& config.default is None ==> tidy.default is None
            &&& trimmed(config.thinking_param_name).len() > 0 ==> tidy.thinking_param_name
                == trimmed(config.thinking_param_name)
            &&& tidy.thinking_param_value_on == config.thinking_param_value_on
            &&& tidy.thinking_param_value_off == config.thinking_param_value_off
        }),
{
    let entries = sorted_entries(config.map);
    lemma_tidy(entries, entries.len() as int, at);
}

/// The level that a profile falls back to is sent as what it stands for among the levels, each of
/// which is sent as it is configured.
pub proof fn law_levels_are_sent_as_configured(profile: ModelProfileView, at: int)
    requires
        profile.reasoning_effort is None,
        ({
            let entries = sorted_entries(profile.reasoning_effort_map);
            &&& 0 <= at < entries.len()
            &&& forall|k: int|
                at < k < entries.len() ==> lowered(trimmed((#[trigger] entries[k]).0)) != lowered(
                    trimmed(entries[at].0),
                )
        }),
        profile.reasoning_effort_map != Map::<Seq<char>, JsonView>::empty(),
    ensures
        ({
            let (level, sent) = sorted_entries(profile.reasoning_effort_map)[at];
            &&& effort_policy(profile) matches Some(policy)
            &&& policy.map.dom().contains(lowered(trimmed(level)))
            &&& policy.map[lowered(trimmed(level))] == sent
            &&& policy.upstream_reasoning is None
            &&& profile.reasoning_effort_default is None ==> policy.unasked() is None
            &&& profile.reasoning_effort_default matches Some(default) ==> trimmed(default).len()
                > 0 && lowered(trimmed(default)) == lowered(trimmed(level)) ==> policy.unasked()
                == Some(sent)
        }),
{
    let entries = sorted_entries(profile.reasoning_effort_map);
    lemma_last_level_counts(entries, entries.len() as int, at);
}

/// A profile is served by the model that it names, or else by the one that it is called after; it
/// passes the requested model through exactly if it is a pattern and names none.
pub proof fn law_profiles_name_their_models(compiled: CompiledProfileView)
    ensures
        compiled.profile.upstream_model matches Some(model) ==> backend_model(compiled) == model,
        compiled.profile.upstream_model is None ==> backend_model(compiled) == compiled.key,
        passes_through(compiled) <==> compiled.glob is Some && compiled.profile.upstream_model
            is None,
{
}

// ---------------------------------------------------------------------------------------------
// Names
// ---------------------------------------------------------------------------------------------

proof fn lemma_first_like<V>(entries: Seq<(Seq<char>, V)>, name: Seq<char>)
    ensures
        first_like(entries, name) matches Some(value) ==> exists|k: int|
            0 <= k < entries.len() && lowered((#[trigger] entries[k]).0) == lowered(name)
                && entries[k].1 == value,
        first_like(entries, name) is None ==> forall|k: int|
            0 <= k < entries.len() ==> lowered((#[trigger] entries[k]).0) != lowered(name),
    decreases entries.len(),
{
    if entries.len() > 0 && lowered(entries[0].0) != lowered(name) {
        let rest = entries.drop_first();
        lemma_first_like(rest, name);
        if first_like(rest, name) is Some {
            let k = choose|k: int|
                0 <= k < rest.len() && lowered((#[trigger] rest[k]).0) == lowered(name)
                    && rest[k].1 == first_like(rest, name)->0;
            assert(entries[k + 1] == rest[k]);
        } else {
            assert forall|k: int| 0 <= k < entries.len() implies lowered(
                (#[trigger] entries[k]).0,
            ) != lowered(name) by {
                if k > 0 {
                    assert(entries[k] == rest[k - 1]);
                }
            }
        }
    }
}

/// A price, or whatever else goes by a name, is found under that name, or else under one that differs
/// only in the case of its letters, and under no other.
pub proof fn law_names_are_found<V>(map: Map<Seq<char>, V>, name: Seq<char>)
    ensures
        map.dom().contains(name) ==> value_named(map, name) == Some(map[name]),
        !map.dom().contains(name) ==> (match value_named(map, name) {
            Some(value) => exists|k: int|
                0 <= k < sorted_entries(map).len() && lowered((#[trigger] sorted_entries(map)[k]).0)
                    == lowered(name) && sorted_entries(map)[k].1 == value,
            None => forall|k: int|
                0 <= k < sorted_entries(map).len() ==> lowered(
                    (#[trigger] sorted_entries(map)[k]).0,
                ) != lowered(name),
        }),
{
    lemma_first_like(sorted_entries(map), name);
}

/// The names that are listed are the keys of the profiles that are no patterns, all of them and
/// nothing else.
pub proof fn law_names_of_profiles_are_listed(
    profiles: Seq<CompiledProfileView>,
    count: int,
    at: int,
)
    requires
        0 <= at < count <= profiles.len(),
    ensures
        profiles[at].glob is None ==> exact_keys(profiles, count).contains(profiles[at].key),
        exact_keys(profiles, count).len() <= count,
        (forall|k: int| 0 <= k < count ==> (#[trigger] profiles[k]).glob is None) ==> exact_keys(
            profiles,
            count,
        ).len() == count && exact_keys(profiles, count)[at] == profiles[at].key,
    decreases count,
{
    let all = exact_keys(profiles, count);
    let before = exact_keys(profiles, count - 1);
    if count > 1 {
        law_names_of_profiles_are_listed(
            profiles,
            count - 1,
            if at < count - 1 {
                at
            } else {
                0
            },
        );
    } else {
        assert(before.len() == 0);
    }
    if profiles[at].glob is None {
        if at < count - 1 {
            let k = choose|k: int| 0 <= k < before.len() && before[k] == profiles[at].key;
            assert(all[k] == profiles[at].key);
        } else {
            assert(all.last() == profiles[at].key);
        }
    }
    if forall|k: int| 0 <= k < count ==> (#[trigger] profiles[k]).glob is None {
        assert(profiles[count - 1].glob is None);
        assert(all == before.push(profiles[count - 1].key));
    }
}

/// What is told in front of a conversation are the words for every model and, behind a blank line,
/// those of the profile that serves the model; where there are none, nothing is told.
pub proof fn law_prompt_prefixes_add_up(
    config: ConfigView,
    model: Seq<char>,
    own: Seq<char>,
    given: Seq<char>,
)
    requires
        trimmed(own).len() > 0,
        trimmed(given).len() > 0,
        config.route(model) is Some,
    ensures
        ({
            let profile = config.route(model)->0.profile;
            let told = config.prompt_prefix(model);
            &&& config.system_prompt_prefix == Some(own) && profile.system_prompt_prefix == Some(
                given,
            ) ==> told == Some(trimmed(own) + "\n\n"@ + trimmed(given))
            &&& config.system_prompt_prefix == Some(own) && profile.system_prompt_prefix is None
                ==> told == Some(trimmed(own))
            &&& config.system_prompt_prefix is None && profile.system_prompt_prefix == Some(given)
                ==> told == Some(trimmed(given))
            &&& config.system_prompt_prefix is None && profile.system_prompt_prefix is None
                ==> told is None
        }),
{
    reveal_with_fuel(filled_prefixes, 3);
    reveal_with_fuel(joined, 3);
    let none = Seq::<Seq<char>>::empty();
    let both = seq![own] + seq![given];
    assert(both =~= seq![own, given]);
    assert(seq![own] + none =~= seq![own]);
    assert(none + seq![given] =~= seq![given]);
    assert(none + none =~= none);
    assert(filled_prefixes(both, 2) =~= seq![trimmed(own), trimmed(given)]);
    assert(filled_prefixes(seq![own], 1) =~= seq![trimmed(own)]);
    assert(filled_prefixes(seq![given], 1) =~= seq![trimmed(given)]);
    assert(seq![trimmed(own), trimmed(given)].drop_last() =~= seq![trimmed(own)]);
}

/// For a model that no profile is called after or served by, the capabilities of the profile for
/// everything are advertised.
pub proof fn law_other_models_have_the_common_capabilities(
    profiles: Seq<CompiledProfileView>,
    id: Seq<char>,
    at: int,
)
    requires
        0 <= at < profiles.len(),
        trimmed(profiles[at].key) == trimmed("*"@),
        forall|k: int| 0 <= k < at ==> trimmed((#[trigger] profiles[k]).key) != trimmed("*"@),
        forall|k: int|
            0 <= k < profiles.len() ==> {
                &&& trimmed((#[trigger] profiles[k]).key) != trimmed(id)
                &&& !same_name(profiles[k].key, id)
                &&& profiles[k].profile.upstream_model is None
            },
    ensures
        advertised(profiles, id) == profiles[at].profile.capabilities,
{
    lemma_first_place(profiles, has_key(id), profiles.len() as int);
    lemma_first_place(profiles, has_key_like(id), profiles.len() as int);
    lemma_first_place(profiles, is_served_by(id), profiles.len() as int);
    lemma_first_place(profiles, has_key("*"@), at);
}

} // verus!
