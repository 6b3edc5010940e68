//! Settings from the environment.
use vstd::prelude::*;

use crate::collections::TextMap;
use crate::json::{map_of, object_parsed, parse_object, JsonMap, JsonView};
use crate::text::{chars_of, same_text, trimmed};

use super::persisted::{PersistedConfig, PersistedConfigView};
use super::price::{finite_prices, retain_finite_prices, ModelPrice, ModelPriceView};

verus! {

// ---------------------------------------------------------------------------------------------
// Numbers
// ---------------------------------------------------------------------------------------------

/// Whether `c` is one of the ten digits.
pub open spec fn is_digit(c: char) -> bool {
    '0' <= c <= '9'
}

/// The number that the digits of `text` stand for, or nothing if it has other characters or none.
pub open spec fn digits_value(text: Seq<char>) -> Option<nat>
    decreases text.len(),
{
    if text.len() == 0 || !is_digit(text.last()) {
        None
    } else if text.len() == 1 {
        Some((text.last() as int - '0' as int) as nat)
    } else {
        match digits_value(text.drop_last()) {
            Some(value) => Some((value * 10 + (text.last() as int - '0' as int)) as nat),
            None => None,
        }
    }
}

/// The number up to `max` that `text` stands for: digits, with a plus sign in front or without.
pub open spec fn unsigned_value(text: Seq<char>, max: nat) -> Option<nat> {
    let digits = if text.len() > 0 && text[0] == '+' {
        text.drop_first()
    } else {
        text
    };
    match digits_value(digits) {
        Some(value) => if value <= max {
            Some(value)
        } else {
            None
        },
        None => None,
    }
}

/// The number of 64 bits that `text` stands for: digits, with a sign in front or without.
pub open spec fn signed_value(text: Seq<char>) -> Option<int> {
    if text.len() > 0 && text[0] == '-' {
        match digits_value(text.drop_first()) {
            Some(value) => if -value >= i64::MIN {
                Some(-value)
            } else {
                None
            },
            None => None,
        }
    } else {
        match unsigned_value(text, i64::MAX as nat) {
            Some(value) => Some(value as int),
            None => None,
        }
    }
}

/// What `text` says: yes or no, or neither.
pub open spec fn bool_value(text: Seq<char>) -> Option<bool> {
    if text == "true"@ {
        Some(true)
    } else if text == "false"@ {
        Some(false)
    } else {
        None
    }
}

proof fn lemma_digits_prefix(text: Seq<char>, count: int)
    requires
        0 < count <= text.len(),
    ensures
        digits_value(text.take(count)) is None ==> digits_value(text) is None,
        digits_value(text) matches Some(whole) ==> digits_value(text.take(count)) matches Some(part)
            && part <= whole,
    decreases text.len(),
{
    if count < text.len() {
        lemma_digits_prefix(text.drop_last(), count);
        assert(text.drop_last().take(count) =~= text.take(count));
    } else {
        assert(text.take(count) =~= text);
    }
}

/// The number up to `max` that the digits from `start` on stand for.
fn parse_digits(chars: &Vec<char>, start: usize, max: u64) -> (result: Option<u64>)
    requires
        start <= chars@.len(),
    ensures
        result matches Some(value) ==> digits_value(chars@.skip(start as int)) == Some(value as nat)
            && value <= max,
        result is None ==> match digits_value(chars@.skip(start as int)) {
            Some(value) => value > max,
            None => true,
        },
{
    let ghost digits = chars@.skip(start as int);
    if start == chars.len() {
        return None;
    }
    let mut value: u64 = 0;
    let mut at: usize = start;
    while at < chars.len()
        invariant
            start <= at <= chars@.len(),
            start < chars@.len(),
            digits == chars@.skip(start as int),
            at == start ==> value == 0,
            at > start ==> digits_value(digits.take(at - start)) == Some(value as nat),
            value <= max,
        decreases chars.len() - at,
    {
        let c: char = chars[at];
        let ghost count = at + 1 - start;
        let ghost taken = digits.take(count);
        proof {
            assert(taken.last() == c);
            assert(taken.drop_last() =~= digits.take(at - start));
            lemma_digits_prefix(digits, count);
        }
        if !('0' <= c && c <= '9') {
            return None;
        }
        let digit: u64 = (c as u32 - '0' as u32) as u64;
        assert(digit == c as int - '0' as int);
        assert(digits_value(taken) == Some((value * 10 + digit) as nat));
        let tenfold = match value.checked_mul(10) {
            Some(tenfold) => tenfold,
            None => {
                return None;
            },
        };
        let next = match tenfold.checked_add(digit) {
            Some(next) => next,
            None => {
                return None;
            },
        };
        if next > max {
            return None;
        }
        value = next;
        at = at + 1;
    }
    assert(digits.take(digits.len() as int) =~= digits);
    Some(value)
}

/// The number up to `max` that `text` stands for.
pub fn parse_unsigned(text: &str, max: u64) -> (result: Option<u64>)
    ensures
        match result {
            Some(value) => unsigned_value(text@, max as nat) == Some(value as nat),
            None => unsigned_value(text@, max as nat) is None,
        },
{
    let chars = chars_of(text);
    let start: usize = if chars.len() > 0 && chars[0] == '+' {
        1
    } else {
        0
    };
    proof {
        if start == 0 {
            assert(chars@.skip(0) =~= text@);
        } else {
            assert(chars@.skip(1) =~= text@.drop_first());
        }
    }
    parse_digits(&chars, start, max)
}

/// The number of 64 bits that `text` stands for.
pub fn parse_signed(text: &str) -> (result: Option<i64>)
    ensures
        match result {
            Some(value) => signed_value(text@) == Some(value as int),
            None => signed_value(text@) is None,
        },
{
    let chars = chars_of(text);
    if chars.len() > 0 && chars[0] == '-' {
        assert(chars@.skip(1) =~= text@.drop_first());
        match parse_digits(&chars, 1, 9223372036854775808) {
            Some(value) => if value == 9223372036854775808 {
                Some(i64::MIN)
            } else {
                Some(-(value as i64))
            },
            None => None,
        }
    } else {
        match parse_unsigned(text, i64::MAX as u64) {
            Some(value) => Some(value as i64),
            None => None,
        }
    }
}

/// What `text` says: yes or no, or neither.
pub fn parse_bool(text: &str) -> (result: Option<bool>)
    ensures
        result == bool_value(text@),
{
    if same_text(text, "true") {
        Some(true)
    } else if same_text(text, "false") {
        Some(false)
    } else {
        None
    }
}

// ---------------------------------------------------------------------------------------------
// Variables
// ---------------------------------------------------------------------------------------------

/// The value of a variable, unless it is not set or blank.
pub open spec fn env_text(env: Map<Seq<char>, Seq<char>>, name: Seq<char>) -> Option<Seq<char>> {
    if env.dom().contains(name) && trimmed(env[name]).len() > 0 {
        Some(env[name])
    } else {
        None
    }
}

/// The number up to `max` that a variable is set to.
pub open spec fn env_number(env: Map<Seq<char>, Seq<char>>, name: Seq<char>, max: nat) -> Option<
    nat,
> {
    if env.dom().contains(name) {
        unsigned_value(env[name], max)
    } else {
        None
    }
}

/// The number from `min` to `max` that a variable is set to, with or without whitespace around it.
pub open spec fn env_loose_number(
    env: Map<Seq<char>, Seq<char>>,
    name: Seq<char>,
    min: nat,
    max: nat,
) -> Option<nat> {
    if env.dom().contains(name) {
        match unsigned_value(trimmed(env[name]), max) {
            Some(value) => if value >= min {
                Some(value)
            } else {
                None
            },
            None => None,
        }
    } else {
        None
    }
}

/// The number of tokens that a variable is set to, at least one.
pub open spec fn env_tokens(env: Map<Seq<char>, Seq<char>>, name: Seq<char>) -> Option<int> {
    if env.dom().contains(name) {
        match signed_value(trimmed(env[name])) {
            Some(value) => if value >= 1 {
                Some(value)
            } else {
                None
            },
            None => None,
        }
    } else {
        None
    }
}

/// What a variable says: yes or no, or neither.
pub open spec fn env_bool(env: Map<Seq<char>, Seq<char>>, name: Seq<char>) -> Option<bool> {
    if env.dom().contains(name) {
        bool_value(env[name])
    } else {
        None
    }
}

/// The JSON object that a variable is set to.
pub open spec fn env_object(env: Map<Seq<char>, Seq<char>>, name: Seq<char>) -> Option<
    Map<Seq<char>, JsonView>,
> {
    match env_text(env, name) {
        Some(text) => match object_parsed(text) {
            Ok(entries) => Some(entries),
            Err(_) => None,
        },
        None => None,
    }
}

/// `new` where there is one, else `old`.
pub open spec fn or_else<T>(new: Option<T>, old: T) -> T {
    match new {
        Some(value) => value,
        None => old,
    }
}

/// The configuration after the variables of the environment went over it. `kwargs` and `prices` are
/// what was read from the variables that hold JSON, if it could be read.
pub open spec fn overridden(
    config: PersistedConfigView,
    env: Map<Seq<char>, Seq<char>>,
    kwargs: Option<Map<Seq<char>, JsonView>>,
    prices: Option<Map<Seq<char>, ModelPriceView>>,
) -> PersistedConfigView {
    PersistedConfigView {
        bind_addr: or_else(env_text(env, "LLMCONDUIT_BIND_ADDR"@), config.bind_addr),
        template_family: match env_text(env, "LLMCONDUIT_TEMPLATE_FAMILY"@) {
            Some(family) => Some(family),
            None => config.template_family,
        },
        system_prompt_prefix: match env_text(env, "LLMCONDUIT_SYSTEM_PROMPT_PREFIX"@) {
            Some(prefix) => Some(prefix),
            None => config.system_prompt_prefix,
        },
        upstream_request_log_path: match env_text(env, "LLMCONDUIT_UPSTREAM_REQUEST_LOG_PATH"@) {
            Some(path) => Some(path),
            None => config.upstream_request_log_path,
        },
        turn_capture_dir: match env_text(env, "LLMCONDUIT_TURN_CAPTURE_DIR"@) {
            Some(path) => Some(path),
            None => config.turn_capture_dir,
        },
        upstream_chat_kwargs: or_else(kwargs, config.upstream_chat_kwargs),
        upstream_failure_cooldown_secs: or_else(
            env_number(env, "LLMCONDUIT_UPSTREAM_FAILURE_COOLDOWN_SECS"@, u64::MAX as nat),
            config.upstream_failure_cooldown_secs as nat,
        ) as u64,
        brave_base_url: or_else(env_text(env, "LLMCONDUIT_BRAVE_BASE_URL"@), config.brave_base_url),
        brave_api_key: match env_text(env, "BRAVE_SEARCH_API_KEY"@) {
            Some(key) => Some(key),
            None => config.brave_api_key,
        },
        brave_max_results: or_else(
            env_number(env, "LLMCONDUIT_BRAVE_MAX_RESULTS"@, usize::MAX as nat),
            config.brave_max_results as nat,
        ) as usize,
        request_timeout_secs: or_else(
            env_number(env, "LLMCONDUIT_REQUEST_TIMEOUT_SECS"@, u64::MAX as nat),
            config.request_timeout_secs as nat,
        ) as u64,
        connect_timeout_secs: or_else(
            env_number(env, "LLMCONDUIT_CONNECT_TIMEOUT_SECS"@, u64::MAX as nat),
            config.connect_timeout_secs as nat,
        ) as u64,
        max_web_search_rounds: or_else(
            env_number(env, "LLMCONDUIT_MAX_WEB_SEARCH_ROUNDS"@, usize::MAX as nat),
            config.max_web_search_rounds as nat,
        ) as usize,
        flatten_content: or_else(
            env_bool(env, "LLMCONDUIT_FLATTEN_CONTENT"@),
            config.flatten_content,
        ),
        max_replay_entries: or_else(
            env_number(env, "LLMCONDUIT_MAX_REPLAY_ENTRIES"@, usize::MAX as nat),
            config.max_replay_entries as nat,
        ) as usize,
        debug_log_max_age_hours: match env_loose_number(
            env,
            "LLMCONDUIT_DEBUG_LOG_MAX_AGE_HOURS"@,
            0,
            u64::MAX as nat,
        ) {
            Some(hours) => Some(hours as u64),
            None => config.debug_log_max_age_hours,
        },
        min_completion_tokens: or_else(
            env_tokens(env, "LLMCONDUIT_MIN_COMPLETION_TOKENS"@),
            config.min_completion_tokens as int,
        ) as i64,
        max_sse_frame_bytes: or_else(
            env_loose_number(env, "LLMCONDUIT_MAX_SSE_FRAME_BYTES"@, 1, usize::MAX as nat),
            config.max_sse_frame_bytes as nat,
        ) as usize,
        max_request_body_bytes: or_else(
            env_loose_number(env, "LLMCONDUIT_MAX_REQUEST_BODY_BYTES"@, 1, usize::MAX as nat),
            config.max_request_body_bytes as nat,
        ) as usize,
        image_cache_max_size: or_else(
            env_loose_number(env, "LLMCONDUIT_IMAGE_CACHE_MAX_SIZE"@, 1, usize::MAX as nat),
            config.image_cache_max_size as nat,
        ) as usize,
        image_cache_ttl_secs: or_else(
            env_loose_number(env, "LLMCONDUIT_IMAGE_CACHE_TTL_SECS"@, 0, u64::MAX as nat),
            config.image_cache_ttl_secs as nat,
        ) as u64,
        price_table: match (env_text(env, "LLMCONDUIT_PRICE_TABLE_JSON"@), prices) {
            (Some(_), Some(prices)) => finite_prices(prices),
            _ => config.price_table,
        },
        ..config
    }
}

fn text_of(env: &TextMap<String>, name: &str) -> (result: Option<String>)
    ensures
        result.deep_view() == env_text(env.deep_view(), name@),
{
    match env.get(name) {
        Some(value) => if value.as_str().trim().is_empty() {
            None
        } else {
            Some(value.clone())
        },
        None => None,
    }
}

fn text_or(env: &TextMap<String>, name: &str, old: &String) -> (result: String)
    ensures
        result@ == or_else(env_text(env.deep_view(), name@), old@),
{
    match text_of(env, name) {
        Some(value) => value,
        None => old.clone(),
    }
}

fn some_text_or(env: &TextMap<String>, name: &str, old: &Option<String>) -> (result: Option<String>)
    ensures
        result.deep_view() == match env_text(env.deep_view(), name@) {
            Some(value) => Some(value),
            None => old.deep_view(),
        },
{
    match text_of(env, name) {
        Some(value) => Some(value),
        None => match old {
            Some(value) => Some(value.clone()),
            None => None,
        },
    }
}

fn number_or(env: &TextMap<String>, name: &str, old: u64) -> (result: u64)
    ensures
        result == or_else(env_number(env.deep_view(), name@, u64::MAX as nat), old as nat),
{
    match env.get(name) {
        Some(value) => match parse_unsigned(value.as_str(), u64::MAX) {
            Some(number) => number,
            None => old,
        },
        None => old,
    }
}

fn size_or(env: &TextMap<String>, name: &str, old: usize) -> (result: usize)
    ensures
        result == or_else(env_number(env.deep_view(), name@, usize::MAX as nat), old as nat),
{
    match env.get(name) {
        Some(value) => match parse_unsigned(value.as_str(), usize::MAX as u64) {
            Some(number) => number as usize,
            None => old,
        },
        None => old,
    }
}

fn loose_number(env: &TextMap<String>, name: &str, min: u64, max: u64) -> (result: Option<u64>)
    ensures
        match result {
            Some(number) => env_loose_number(env.deep_view(), name@, min as nat, max as nat)
                == Some(number as nat),
            None => env_loose_number(env.deep_view(), name@, min as nat, max as nat) is None,
        },
        result matches Some(number) ==> number <= max,
{
    match env.get(name) {
        Some(value) => match parse_unsigned(value.as_str().trim(), max) {
            Some(number) => if number >= min {
                Some(number)
            } else {
                None
            },
            None => None,
        },
        None => None,
    }
}

fn loose_size_or(env: &TextMap<String>, name: &str, old: usize) -> (result: usize)
    ensures
        result == or_else(
            env_loose_number(env.deep_view(), name@, 1, usize::MAX as nat),
            old as nat,
        ),
{
    match loose_number(env, name, 1, usize::MAX as u64) {
        Some(number) => number as usize,
        None => old,
    }
}

fn tokens_or(env: &TextMap<String>, name: &str, old: i64) -> (result: i64)
    ensures
        result == or_else(env_tokens(env.deep_view(), name@), old as int),
{
    match env.get(name) {
        Some(value) => match parse_signed(value.as_str().trim()) {
            Some(number) => if number >= 1 {
                number
            } else {
                old
            },
            None => old,
        },
        None => old,
    }
}

fn bool_or(env: &TextMap<String>, name: &str, old: bool) -> (result: bool)
    ensures
        result == or_else(env_bool(env.deep_view(), name@), old),
{
    match env.get(name) {
        Some(value) => match parse_bool(value.as_str()) {
            Some(answer) => answer,
            None => old,
        },
        None => old,
    }
}

/// Lets the variables of the environment go over the configuration. `kwargs` and `prices` are what
/// was read from the variables that hold JSON, if it could be read.
pub fn apply_env_values(
    config: &mut PersistedConfig,
    env: &TextMap<String>,
    kwargs: Option<JsonMap>,
    prices: Option<TextMap<ModelPrice>>,
)
    ensures
        final(config).deep_view() == overridden(
            old(config).deep_view(),
            env.deep_view(),
            match kwargs {
                Some(entries) => Some(map_of(entries.deep_view())),
                None => None,
            },
            prices.deep_view(),
        ),
{
    config.bind_addr = text_or(env, "LLMCONDUIT_BIND_ADDR", &config.bind_addr);
    config.template_family =
        some_text_or(env, "LLMCONDUIT_TEMPLATE_FAMILY", &config.template_family);
    config.system_prompt_prefix =
        some_text_or(env, "LLMCONDUIT_SYSTEM_PROMPT_PREFIX", &config.system_prompt_prefix);
    config.upstream_request_log_path = some_text_or(
        env,
        "LLMCONDUIT_UPSTREAM_REQUEST_LOG_PATH",
        &config.upstream_request_log_path,
    );
    config.turn_capture_dir =
        some_text_or(env, "LLMCONDUIT_TURN_CAPTURE_DIR", &config.turn_capture_dir);
    if let Some(entries) = kwargs {
        config.upstream_chat_kwargs = entries;
    }
    config.upstream_failure_cooldown_secs = number_or(
        env,
        "LLMCONDUIT_UPSTREAM_FAILURE_COOLDOWN_SECS",
        config.upstream_failure_cooldown_secs,
    );
    config.brave_base_url = text_or(env, "LLMCONDUIT_BRAVE_BASE_URL", &config.brave_base_url);
    config.brave_api_key = some_text_or(env, "BRAVE_SEARCH_API_KEY", &config.brave_api_key);
    config.brave_max_results =
        size_or(env, "LLMCONDUIT_BRAVE_MAX_RESULTS", config.brave_max_results);
    config.request_timeout_secs =
        number_or(env, "LLMCONDUIT_REQUEST_TIMEOUT_SECS", config.request_timeout_secs);
    config.connect_timeout_secs =
        number_or(env, "LLMCONDUIT_CONNECT_TIMEOUT_SECS", config.connect_timeout_secs);
    config.max_web_search_rounds =
        size_or(env, "LLMCONDUIT_MAX_WEB_SEARCH_ROUNDS", config.max_web_search_rounds);
    config.flatten_content = bool_or(env, "LLMCONDUIT_FLATTEN_CONTENT", config.flatten_content);
    config.max_replay_entries =
        size_or(env, "LLMCONDUIT_MAX_REPLAY_ENTRIES", config.max_replay_entries);
    if let Some(hours) = loose_number(env, "LLMCONDUIT_DEBUG_LOG_MAX_AGE_HOURS", 0, u64::MAX) {
        config.debug_log_max_age_hours = Some(hours);
    }
    config.min_completion_tokens =
        tokens_or(env, "LLMCONDUIT_MIN_COMPLETION_TOKENS", config.min_completion_tokens);
    config.max_sse_frame_bytes =
        loose_size_or(env, "LLMCONDUIT_MAX_SSE_FRAME_BYTES", config.max_sse_frame_bytes);
    config.max_request_body_bytes =
        loose_size_or(env, "LLMCONDUIT_MAX_REQUEST_BODY_BYTES", config.max_request_body_bytes);
    config.image_cache_max_size =
        loose_size_or(env, "LLMCONDUIT_IMAGE_CACHE_MAX_SIZE", config.image_cache_max_size);
    if let Some(secs) = loose_number(env, "LLMCONDUIT_IMAGE_CACHE_TTL_SECS", 0, u64::MAX) {
        config.image_cache_ttl_secs = secs;
    }
    if text_of(env, "LLMCONDUIT_PRICE_TABLE_JSON").is_some() {
        if let Some(prices) = prices {
            config.price_table = retain_finite_prices(&prices);
        }
    }
}

/// Lets the variables of the environment go over the configuration. A variable that is blank or
/// does not hold what it should changes nothing. `prices` is the price table that was read from its
/// variable, if it could be read.
pub fn apply_env_overrides(
    config: &mut PersistedConfig,
    env: &TextMap<String>,
    prices: Option<TextMap<ModelPrice>>,
)
    ensures
        final(config).deep_view() == overridden(
            old(config).deep_view(),
            env.deep_view(),
            env_object(env.deep_view(), "LLMCONDUIT_UPSTREAM_CHAT_KWARGS_JSON"@),
            prices.deep_view(),
        ),
{
    let kwargs = match text_of(env, "LLMCONDUIT_UPSTREAM_CHAT_KWARGS_JSON") {
        Some(text) => match parse_object(text.as_str()) {
            Ok(entries) => Some(entries),
            Err(_) => None,
        },
        None => None,
    };
    apply_env_values(config, env, kwargs, prices);
}

/// Where no variable is set the configuration stays as it is.
pub proof fn law_empty_environment_changes_nothing(
    config: PersistedConfigView,
    env: Map<Seq<char>, Seq<char>>,
    prices: Option<Map<Seq<char>, ModelPriceView>>,
)
    requires
        env == Map::<Seq<char>, Seq<char>>::empty(),
    ensures
        overridden(
            config,
            env,
            env_object(env, "LLMCONDUIT_UPSTREAM_CHAT_KWARGS_JSON"@),
            prices,
        ) == config,
{
}

/// No variable changes the upstreams, the profiles or their templates, and none brings back a
/// setting that is gone.
pub proof fn law_environment_leaves_routing_alone(
    config: PersistedConfigView,
    env: Map<Seq<char>, Seq<char>>,
    kwargs: Option<Map<Seq<char>, JsonView>>,
    prices: Option<Map<Seq<char>, ModelPriceView>>,
)
    ensures
        ({
            let after = overridden(config, env, kwargs, prices);
            &&& after.upstreams == config.upstreams
            &&& after.model_profiles == config.model_profiles
            &&& after.model_profile_templates == config.model_profile_templates
            &&& after.upstream_base_url == config.upstream_base_url
            &&& after.upstream_api_key == config.upstream_api_key
            &&& after.upstream_model == config.upstream_model
        }),
{
}

} // verus!
