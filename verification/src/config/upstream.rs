//! The endpoints that requests are sent to.
use vstd::prelude::*;

use crate::collections::TextMap;
use crate::duplicate::Duplicate;
use crate::error::outcome;
use crate::json::{map_of, Json, JsonMap, JsonView};
use crate::text::{decimal, decimal_text, quoted, quoted_text, trimmed};

use super::profile::{names_agree, same_name};
use super::reasoning::{filled_text, trim_nonempty};

verus! {

/// An upstream as it is configured.
#[derive(Debug, PartialEq)]
pub struct PersistedUpstream {
    pub name: String,
    pub url: String,
    pub api_key: Option<String>,
    pub api_key_env: Option<String>,
    pub chat_kwargs: JsonMap,
    pub request_log_path: Option<String>,
    pub upstream_model: Option<Json>,
    pub fallback_upstreams: Option<Json>,
}

/// The model of [`PersistedUpstream`].
pub struct PersistedUpstreamView {
    pub name: Seq<char>,
    pub url: Seq<char>,
    pub api_key: Option<Seq<char>>,
    pub api_key_env: Option<Seq<char>>,
    pub chat_kwargs: Map<Seq<char>, JsonView>,
    pub request_log_path: Option<Seq<char>>,
    pub upstream_model: Option<JsonView>,
    pub fallback_upstreams: Option<JsonView>,
}

impl DeepView for PersistedUpstream {
    type V = PersistedUpstreamView;

    open spec fn deep_view(&self) -> PersistedUpstreamView {
        PersistedUpstreamView {
            name: self.name@,
            url: self.url@,
            api_key: self.api_key.deep_view(),
            api_key_env: self.api_key_env.deep_view(),
            chat_kwargs: map_of(self.chat_kwargs.deep_view()),
            request_log_path: self.request_log_path.deep_view(),
            upstream_model: self.upstream_model.deep_view(),
            fallback_upstreams: self.fallback_upstreams.deep_view(),
        }
    }
}

impl Duplicate for PersistedUpstream {
    fn duplicate(&self) -> (copy: Self) {
        PersistedUpstream {
            name: self.name.clone(),
            url: self.url.clone(),
            api_key: self.api_key.duplicate(),
            api_key_env: self.api_key_env.duplicate(),
            chat_kwargs: self.chat_kwargs.duplicate(),
            request_log_path: self.request_log_path.duplicate(),
            upstream_model: self.upstream_model.duplicate(),
            fallback_upstreams: self.fallback_upstreams.duplicate(),
        }
    }
}

/// A named endpoint.
#[derive(Debug, PartialEq)]
pub struct UpstreamConfig {
    pub name: String,
    pub url: String,
    pub api_key: Option<String>,
    pub chat_kwargs: JsonMap,
    pub request_log_path: Option<String>,
}

/// The model of [`UpstreamConfig`].
pub struct UpstreamConfigView {
    pub name: Seq<char>,
    pub url: Seq<char>,
    pub api_key: Option<Seq<char>>,
    pub chat_kwargs: Map<Seq<char>, JsonView>,
    pub request_log_path: Option<Seq<char>>,
}

impl DeepView for UpstreamConfig {
    type V = UpstreamConfigView;

    open spec fn deep_view(&self) -> UpstreamConfigView {
        UpstreamConfigView {
            name: self.name@,
            url: self.url@,
            api_key: self.api_key.deep_view(),
            chat_kwargs: map_of(self.chat_kwargs.deep_view()),
            request_log_path: self.request_log_path.deep_view(),
        }
    }
}

impl Duplicate for UpstreamConfig {
    fn duplicate(&self) -> (copy: Self) {
        UpstreamConfig {
            name: self.name.clone(),
            url: self.url.clone(),
            api_key: self.api_key.duplicate(),
            chat_kwargs: self.chat_kwargs.duplicate(),
            request_log_path: self.request_log_path.duplicate(),
        }
    }
}

// ---------------------------------------------------------------------------------------------
// Addresses
// ---------------------------------------------------------------------------------------------

/// What `url::Url::parse` makes of `text`: the address in its serialized form, or the text of the
/// error.
pub uninterp spec fn url_parsed(text: Seq<char>) -> Result<Seq<char>, Seq<char>>;

/// `url::Url::parse`: the serialized form of the address, or the text of the error. Both depend on
/// the text alone.
#[verifier::external_body]
fn parse_url_text(text: &str) -> (result: Result<String, String>)
    ensures
        outcome(result) == url_parsed(text@),
{
    match url::Url::parse(text) {
        Ok(url) => Ok(url.as_str().to_string()),
        Err(err) => Err(err.to_string()),
    }
}

/// An address in its serialized form, or why the text is none.
pub fn parse_url(text: &str) -> (result: Result<String, String>)
    ensures
        outcome(result) == url_parsed(text@),
{
    parse_url_text(text)
}

// ---------------------------------------------------------------------------------------------
// Upstreams
// ---------------------------------------------------------------------------------------------

/// The value of a variable of the environment, unless it is blank.
pub open spec fn env_value(env: Map<Seq<char>, Seq<char>>, name: Seq<char>) -> Option<Seq<char>> {
    if env.dom().contains(name) {
        filled_text(Some(env[name]))
    } else {
        None
    }
}

/// The key of an upstream: as it is configured, or from the environment, or none.
pub open spec fn upstream_key(
    entry: PersistedUpstreamView,
    env: Map<Seq<char>, Seq<char>>,
) -> Result<Option<Seq<char>>, Seq<char>> {
    let name = trimmed(entry.name);
    match (filled_text(entry.api_key), filled_text(entry.api_key_env)) {
        (Some(_), Some(_)) => Err(
            "upstreams["@ + name
                + "]: `api_key` and `api_key_env` are mutually exclusive; set one or the other"@,
        ),
        (key, None) => Ok(key),
        (None, Some(variable)) => match env_value(env, variable) {
            Some(key) => Ok(Some(key)),
            None => Err(
                "upstreams["@ + name + "]: `api_key_env` names "@ + quoted(variable)
                    + ", but that environment variable is unset or blank"@,
            ),
        },
    }
}

/// Whether one of the first `count` entries has the same name.
pub open spec fn name_taken(
    entries: Seq<PersistedUpstreamView>,
    name: Seq<char>,
    count: int,
) -> bool {
    exists|k: int| 0 <= k < count && same_name((#[trigger] entries[k]).name, name)
}

/// The addresses of the entries, or why they are none.
pub open spec fn urls_of(entries: Seq<PersistedUpstreamView>) -> Seq<
    Result<Seq<char>, Seq<char>>,
> {
    Seq::new(entries.len(), |k: int| url_parsed(trimmed(entries[k].url)))
}

/// The models of several outcomes.
pub open spec fn outcomes(results: Seq<Result<String, String>>) -> Seq<
    Result<Seq<char>, Seq<char>>,
> {
    Seq::new(results.len(), |k: int| outcome(results[k]))
}

/// The upstream that the entry at `index` stands for, or why it stands for none. Its address is
/// the one at `index` in `urls`.
pub open spec fn parsed_upstream(
    entries: Seq<PersistedUpstreamView>,
    urls: Seq<Result<Seq<char>, Seq<char>>>,
    env: Map<Seq<char>, Seq<char>>,
    index: int,
) -> Result<UpstreamConfigView, Seq<char>> {
    let entry = entries[index];
    let name = trimmed(entry.name);
    if name.len() == 0 {
        Err("upstreams["@ + decimal(index as nat) + "]: name must not be blank"@)
    } else if entry.upstream_model is Some {
        Err(
            "upstreams["@ + name
                + "]: `upstream_model` was removed; set `upstream_model` on the model profile instead (see README \"Migrating\")"@,
        )
    } else if entry.fallback_upstreams is Some {
        Err(
            "upstreams["@ + name
                + "]: nested `fallback_upstreams` were removed; declare `fallbacks` on the model profile instead (see README \"Migrating\")"@,
        )
    } else if name_taken(entries, entry.name, index) {
        Err("upstreams["@ + decimal(index as nat) + "]: duplicate upstream name "@ + quoted(name))
    } else {
        match urls[index] {
            Err(message) => Err(
                "invalid upstreams["@ + decimal(index as nat) + "].url: "@ + message,
            ),
            Ok(url) => match upstream_key(entry, env) {
                Err(message) => Err(message),
                Ok(api_key) => Ok(
                    UpstreamConfigView {
                        name,
                        url,
                        api_key,
                        chat_kwargs: entry.chat_kwargs,
                        request_log_path: filled_text(entry.request_log_path),
                    },
                ),
            },
        }
    }
}

/// The upstreams of the first `count` entries, or the error of the first that has one.
pub open spec fn parsed_upstreams(
    entries: Seq<PersistedUpstreamView>,
    urls: Seq<Result<Seq<char>, Seq<char>>>,
    env: Map<Seq<char>, Seq<char>>,
    count: int,
) -> Result<Seq<UpstreamConfigView>, Seq<char>>
    decreases count,
{
    if count <= 0 {
        Ok(Seq::empty())
    } else {
        match parsed_upstreams(entries, urls, env, count - 1) {
            Err(message) => Err(message),
            Ok(before) => match parsed_upstream(entries, urls, env, count - 1) {
                Err(message) => Err(message),
                Ok(upstream) => Ok(before.push(upstream)),
            },
        }
    }
}

proof fn lemma_upstream_error_stays(
    entries: Seq<PersistedUpstreamView>,
    urls: Seq<Result<Seq<char>, Seq<char>>>,
    env: Map<Seq<char>, Seq<char>>,
    count: int,
    upto: int,
)
    requires
        0 <= upto <= count,
        parsed_upstreams(entries, urls, env, upto) is Err,
    ensures
        parsed_upstreams(entries, urls, env, count) == parsed_upstreams(entries, urls, env, upto),
    decreases count,
{
    if upto < count {
        lemma_upstream_error_stays(entries, urls, env, count - 1, upto);
    }
}

fn concat3(first: &str, second: &str, third: &str) -> (result: String)
    ensures
        result@ == first@ + second@ + third@,
{
    let mut result = first.to_string();
    result.push_str(second);
    result.push_str(third);
    result
}

fn resolve_key(entry: &PersistedUpstream, env: &TextMap<String>) -> (result: Result<
    Option<String>,
    String,
>)
    ensures
        outcome(result) == upstream_key(entry.deep_view(), env.deep_view()),
{
    let name = entry.name.as_str().trim();
    match (trim_nonempty(&entry.api_key), trim_nonempty(&entry.api_key_env)) {
        (Some(_), Some(_)) => Err(
            concat3(
                "upstreams[",
                name,
                "]: `api_key` and `api_key_env` are mutually exclusive; set one or the other",
            ),
        ),
        (key, None) => Ok(key),
        (None, Some(variable)) => {
            let value = match env.get(variable.as_str()) {
                Some(value) => {
                    let inner = value.as_str().trim();
                    if inner.is_empty() {
                        None
                    } else {
                        Some(inner.to_string())
                    }
                },
                None => None,
            };
            match value {
                Some(key) => Ok(Some(key)),
                None => {
                    let mut message = concat3(
                        "upstreams[",
                        name,
                        "]: `api_key_env` names ",
                    );
                    message.push_str(quoted_text(variable.as_str()).as_str());
                    message.push_str(", but that environment variable is unset or blank");
                    Err(message)
                },
            }
        },
    }
}

fn parse_upstream(
    entries: &Vec<PersistedUpstream>,
    urls: &Vec<Result<String, String>>,
    env: &TextMap<String>,
    index: usize,
) -> (result: Result<UpstreamConfig, String>)
    requires
        index < entries@.len(),
        urls@.len() == entries@.len(),
    ensures
        outcome(result) == parsed_upstream(
            entries.deep_view(),
            outcomes(urls@),
            env.deep_view(),
            index as int,
        ),
{
    let ghost models = entries.deep_view();
    let entry = &entries[index];
    assert(models[index as int] == entry.deep_view());
    let name = entry.name.as_str().trim();
    let number = decimal_text(index);
    if name.is_empty() {
        return Err(concat3("upstreams[", number.as_str(), "]: name must not be blank"));
    }
    if entry.upstream_model.is_some() {
        return Err(
            concat3(
                "upstreams[",
                name,
                "]: `upstream_model` was removed; set `upstream_model` on the model profile instead (see README \"Migrating\")",
            ),
        );
    }
    if entry.fallback_upstreams.is_some() {
        return Err(
            concat3(
                "upstreams[",
                name,
                "]: nested `fallback_upstreams` were removed; declare `fallbacks` on the model profile instead (see README \"Migrating\")",
            ),
        );
    }
    let mut taken = false;
    for at in 0..index
        invariant
            models == entries.deep_view(),
            index < entries@.len(),
            entry.deep_view() == models[index as int],
            taken <==> name_taken(models, entry.deep_view().name, at as int),
    {
        assert(models[at as int] == entries@[at as int].deep_view());
        if names_agree(entries[at].name.as_str(), entry.name.as_str()) {
            assert(same_name(models[at as int].name, entry.deep_view().name));
            taken = true;
        }
        assert(taken <==> name_taken(models, entry.deep_view().name, at + 1)) by {
            if name_taken(models, entry.deep_view().name, at + 1) {
                let k = choose|k: int|
                    0 <= k < at + 1 && same_name(
                        (#[trigger] models[k]).name,
                        entry.deep_view().name,
                    );
                if k < at {
                    assert(name_taken(models, entry.deep_view().name, at as int));
                }
            }
            if name_taken(models, entry.deep_view().name, at as int) {
                let k = choose|k: int|
                    0 <= k < at && same_name((#[trigger] models[k]).name, entry.deep_view().name);
                assert(same_name(models[k].name, entry.deep_view().name));
            }
        }
    }
    if taken {
        let mut message = concat3("upstreams[", number.as_str(), "]: duplicate upstream name ");
        message.push_str(quoted_text(name).as_str());
        return Err(message);
    }
    let url = match &urls[index] {
        Ok(url) => url.clone(),
        Err(err) => {
            let mut message = concat3("invalid upstreams[", number.as_str(), "].url: ");
            message.push_str(err.as_str());
            return Err(message);
        },
    };
    let api_key = match resolve_key(entry, env) {
        Ok(api_key) => api_key,
        Err(message) => {
            return Err(message);
        },
    };
    Ok(
        UpstreamConfig {
            name: name.to_string(),
            url,
            api_key,
            chat_kwargs: entry.chat_kwargs.duplicate(),
            request_log_path: trim_nonempty(&entry.request_log_path),
        },
    )
}

/// The upstreams that the entries stand for, with the addresses that were found for them. Keys that
/// are kept in the environment are looked up in `env`.
pub fn upstreams_with_urls(
    entries: &Vec<PersistedUpstream>,
    urls: &Vec<Result<String, String>>,
    env: &TextMap<String>,
) -> (result: Result<Vec<UpstreamConfig>, String>)
    requires
        urls@.len() == entries@.len(),
    ensures
        outcome(result) == parsed_upstreams(
            entries.deep_view(),
            outcomes(urls@),
            env.deep_view(),
            entries@.len() as int,
        ),
{
    let ghost models = entries.deep_view();
    let ghost addresses = outcomes(urls@);
    let ghost variables = env.deep_view();
    let mut upstreams: Vec<UpstreamConfig> = Vec::new();
    assert(upstreams.deep_view() =~= Seq::<UpstreamConfigView>::empty());
    for index in 0..entries.len()
        invariant
            models == entries.deep_view(),
            addresses == outcomes(urls@),
            variables == env.deep_view(),
            urls@.len() == entries@.len(),
            parsed_upstreams(models, addresses, variables, index as int) == Ok::<
                Seq<UpstreamConfigView>,
                Seq<char>,
            >(upstreams.deep_view()),
    {
        let ghost before = upstreams.deep_view();
        match parse_upstream(entries, urls, env, index) {
            Ok(upstream) => {
                let ghost added = upstream.deep_view();
                upstreams.push(upstream);
                assert(upstreams.deep_view() =~= before.push(added));
            },
            Err(message) => {
                proof {
                    lemma_upstream_error_stays(
                        models,
                        addresses,
                        variables,
                        models.len() as int,
                        index + 1,
                    );
                }
                return Err(message);
            },
        }
    }
    Ok(upstreams)
}

/// The upstreams that the entries stand for. Keys that are kept in the environment are looked up
/// in `env`.
pub fn parse_upstreams(entries: &Vec<PersistedUpstream>, env: &TextMap<String>) -> (result: Result<
    Vec<UpstreamConfig>,
    String,
>)
    ensures
        outcome(result) == parsed_upstreams(
            entries.deep_view(),
            urls_of(entries.deep_view()),
            env.deep_view(),
            entries@.len() as int,
        ),
{
    let ghost models = entries.deep_view();
    let mut urls: Vec<Result<String, String>> = Vec::new();
    for index in 0..entries.len()
        invariant
            models == entries.deep_view(),
            urls@.len() == index,
            forall|k: int|
                0 <= k < index ==> outcome(#[trigger] urls@[k]) == url_parsed(
                    trimmed(models[k].url),
                ),
    {
        assert(models[index as int] == entries@[index as int].deep_view());
        urls.push(parse_url(entries[index].url.as_str().trim()));
    }
    assert(outcomes(urls@) =~= urls_of(models));
    upstreams_with_urls(entries, &urls, env)
}

pub(super) proof fn lemma_each_upstream(
    entries: Seq<PersistedUpstreamView>,
    urls: Seq<Result<Seq<char>, Seq<char>>>,
    env: Map<Seq<char>, Seq<char>>,
    count: int,
)
    requires
        0 <= count <= entries.len(),
        parsed_upstreams(entries, urls, env, count) is Ok,
    ensures
        parsed_upstreams(entries, urls, env, count)->Ok_0.len() == count,
        forall|k: int|
            0 <= k < count ==> parsed_upstream(entries, urls, env, k) == Ok::<
                UpstreamConfigView,
                Seq<char>,
            >(#[trigger] parsed_upstreams(entries, urls, env, count)->Ok_0[k]),
    decreases count,
{
    if count > 0 {
        lemma_each_upstream(entries, urls, env, count - 1);
        let before = parsed_upstreams(entries, urls, env, count - 1)->Ok_0;
        let after = parsed_upstreams(entries, urls, env, count)->Ok_0;
        assert forall|k: int| 0 <= k < count implies parsed_upstream(entries, urls, env, k) == Ok::<
            UpstreamConfigView,
            Seq<char>,
        >(#[trigger] after[k]) by {
            if k < count - 1 {
                assert(after[k] == before[k]);
            }
        }
    }
}

/// Upstreams have names, all of them different even in lower case.
pub proof fn law_upstream_names_are_unique(
    entries: Seq<PersistedUpstreamView>,
    urls: Seq<Result<Seq<char>, Seq<char>>>,
    env: Map<Seq<char>, Seq<char>>,
    i: int,
    j: int,
)
    requires
        parsed_upstreams(entries, urls, env, entries.len() as int) is Ok,
        0 <= i < j < entries.len(),
    ensures
        ({
            let upstreams = parsed_upstreams(entries, urls, env, entries.len() as int)->Ok_0;
            &&& upstreams.len() == entries.len()
            &&& upstreams[i].name.len() > 0
            &&& !same_name(upstreams[i].name, upstreams[j].name)
        }),
{
    let upstreams = parsed_upstreams(entries, urls, env, entries.len() as int)->Ok_0;
    lemma_each_upstream(entries, urls, env, entries.len() as int);
    assert(parsed_upstream(entries, urls, env, i) == Ok::<UpstreamConfigView, Seq<char>>(upstreams[i]));
    assert(parsed_upstream(entries, urls, env, j) == Ok::<UpstreamConfigView, Seq<char>>(upstreams[j]));
    crate::text::lemma_trimmed_idempotent(entries[i].name);
    crate::text::lemma_trimmed_idempotent(entries[j].name);
    if same_name(upstreams[i].name, upstreams[j].name) {
        assert(same_name(entries[i].name, entries[j].name));
        assert(name_taken(entries, entries[j].name, j));
    }
}

/// An upstream that declares no key has none, whatever the environment holds, and one that declares
/// a variable for its key has a key.
pub proof fn law_keys_come_only_from_declarations(
    entries: Seq<PersistedUpstreamView>,
    urls: Seq<Result<Seq<char>, Seq<char>>>,
    env: Map<Seq<char>, Seq<char>>,
    at: int,
)
    requires
        parsed_upstreams(entries, urls, env, entries.len() as int) is Ok,
        0 <= at < entries.len(),
    ensures
        ({
            let upstream = parsed_upstreams(entries, urls, env, entries.len() as int)->Ok_0[at];
            let declared = filled_text(entries[at].api_key);
            let variable = filled_text(entries[at].api_key_env);
            &&& declared is None || variable is None
            &&& declared is Some ==> upstream.api_key == declared
            &&& declared is None && variable is None ==> upstream.api_key is None
            &&& variable is Some ==> upstream.api_key is Some && upstream.api_key == env_value(
                env,
                variable->0,
            )
        }),
{
    lemma_each_upstream(entries, urls, env, entries.len() as int);
    let upstream = parsed_upstreams(entries, urls, env, entries.len() as int)->Ok_0[at];
    assert(parsed_upstream(entries, urls, env, at) == Ok::<UpstreamConfigView, Seq<char>>(
        upstream,
    ));
}

} // verus!
