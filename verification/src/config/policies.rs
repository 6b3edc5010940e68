//! What is set for each model of an upstream.
use vstd::prelude::*;

use crate::collections::{sorted_entries, TextMap};
use crate::duplicate::Duplicate;
use crate::json::{json_object1, json_text, map_of, Json, JsonMap, JsonView};
use crate::text::{lowered, trimmed};

use super::glob::ModelGlob;
use super::profile::{CompiledProfile, CompiledProfileView, ModelProfile, ModelProfileView};
use super::reasoning::{filled_text, trim_nonempty, ReasoningConfig, ReasoningConfigView};
use super::Config;

verus! {

/// How the reasoning effort of a request is put to a model: what is sent for each level, and the level
/// of a request that names none.
#[derive(Debug, PartialEq)]
pub struct ReasoningEffortPolicy {
    pub map: TextMap<Json>,
    pub default: Option<String>,
    pub upstream_reasoning: Option<ReasoningConfig>,
}

/// The model of [`ReasoningEffortPolicy`].
pub struct ReasoningEffortPolicyView {
    pub map: Map<Seq<char>, JsonView>,
    pub default: Option<Seq<char>>,
    pub upstream_reasoning: Option<ReasoningConfigView>,
}

impl DeepView for ReasoningEffortPolicy {
    type V = ReasoningEffortPolicyView;

    open spec fn deep_view(&self) -> ReasoningEffortPolicyView {
        ReasoningEffortPolicyView {
            map: self.map.deep_view(),
            default: self.default.deep_view(),
            upstream_reasoning: self.upstream_reasoning.deep_view(),
        }
    }
}

impl Duplicate for ReasoningEffortPolicy {
    fn duplicate(&self) -> (copy: Self) {
        ReasoningEffortPolicy {
            map: self.map.duplicate(),
            default: self.default.duplicate(),
            upstream_reasoning: self.upstream_reasoning.duplicate(),
        }
    }
}

/// The keyword arguments that are sent to a model.
#[derive(Debug, PartialEq)]
pub struct ChatKwargsPolicy {
    pub kwargs: JsonMap,
}

/// The model of [`ChatKwargsPolicy`].
pub struct ChatKwargsPolicyView {
    pub kwargs: Map<Seq<char>, JsonView>,
}

impl DeepView for ChatKwargsPolicy {
    type V = ChatKwargsPolicyView;

    open spec fn deep_view(&self) -> ChatKwargsPolicyView {
        ChatKwargsPolicyView {
            kwargs: map_of(self.kwargs.deep_view()),
        }
    }
}

impl Duplicate for ChatKwargsPolicy {
    fn duplicate(&self) -> (copy: Self) {
        ChatKwargsPolicy {
            kwargs: self.kwargs.duplicate(),
        }
    }
}

// ---------------------------------------------------------------------------------------------
// Policies of several profiles
// ---------------------------------------------------------------------------------------------

/// The model that a profile is served by: the one that it names, else its key.
pub open spec fn backend_model(compiled: CompiledProfileView) -> Seq<char> {
    match compiled.profile.upstream_model {
        Some(model) => model,
        None => compiled.key,
    }
}

/// Whether a profile serves whatever model the request asked for.
pub open spec fn passes_through(compiled: CompiledProfileView) -> bool {
    compiled.glob is Some && compiled.profile.upstream_model is None
}

/// The policies of the first `count` profiles under the models that serve them. Profiles that pass
/// the requested model through have none here. The first policy for a model stays.
pub open spec fn exact_policies<V>(
    profiles: Seq<CompiledProfileView>,
    extract: spec_fn(ModelProfileView) -> Option<V>,
    count: int,
) -> Map<Seq<char>, V>
    decreases count,
{
    if count <= 0 {
        Map::empty()
    } else {
        let before = exact_policies(profiles, extract, count - 1);
        let compiled = profiles[count - 1];
        let model = backend_model(compiled);
        match extract(compiled.profile) {
            Some(policy) => if passes_through(compiled) || before.dom().contains(model) {
                before
            } else {
                before.insert(model, policy)
            },
            None => before,
        }
    }
}

/// The policies of those of the first `count` profiles that pass the requested model through, each
/// with the pattern of its profile.
pub open spec fn pattern_policies<V>(
    profiles: Seq<CompiledProfileView>,
    extract: spec_fn(ModelProfileView) -> Option<V>,
    count: int,
) -> Seq<(Seq<char>, V)>
    decreases count,
{
    if count <= 0 {
        Seq::empty()
    } else {
        let before = pattern_policies(profiles, extract, count - 1);
        let compiled = profiles[count - 1];
        match extract(compiled.profile) {
            Some(policy) => if passes_through(compiled) {
                before.push((compiled.glob->0, policy))
            } else {
                before
            },
            None => before,
        }
    }
}

/// The model that a profile is served by: the one that it names, else its key.
pub fn effective_backend_model(compiled: &CompiledProfile) -> (result: String)
    ensures
        result@ == backend_model(compiled.deep_view()),
{
    match &compiled.profile.upstream_model {
        Some(model) => model.clone(),
        None => compiled.key.clone(),
    }
}

fn build_exact_policies<V: DeepView, F: Fn(&ModelProfile) -> Option<V>>(
    profiles: &Vec<CompiledProfile>,
    extract: F,
    Ghost(policy): Ghost<spec_fn(ModelProfileView) -> Option<V::V>>,
) -> (result: TextMap<V>)
    requires
        forall|profile: &ModelProfile| #[trigger] call_requires(extract, (profile,)),
        forall|profile: &ModelProfile, result: Option<V>| #[trigger]
            call_ensures(extract, (profile,), result) ==> result.deep_view() == policy(
                profile.deep_view(),
            ),
    ensures
        result.deep_view() == exact_policies(
            profiles.deep_view(),
            policy,
            profiles@.len() as int,
        ),
{
    let ghost models = profiles.deep_view();
    let mut policies: TextMap<V> = TextMap::new();
    for index in 0..profiles.len()
        invariant
            models == profiles.deep_view(),
            forall|profile: &ModelProfile| #[trigger] call_requires(extract, (profile,)),
            forall|profile: &ModelProfile, result: Option<V>| #[trigger]
                call_ensures(extract, (profile,), result) ==> result.deep_view() == policy(
                    profile.deep_view(),
                ),
            policies.deep_view() == exact_policies(models, policy, index as int),
    {
        let compiled = &profiles[index];
        assert(models[index as int] == compiled.deep_view());
        if !(compiled.glob.is_some() && compiled.profile.upstream_model.is_none()) {
            if let Some(value) = extract(&compiled.profile) {
                let model = effective_backend_model(compiled);
                if !policies.contains_key(model.as_str()) {
                    policies.insert(model, value);
                }
            }
        }
    }
    policies
}

fn build_glob_policies<V: DeepView, F: Fn(&ModelProfile) -> Option<V>>(
    profiles: &Vec<CompiledProfile>,
    extract: F,
    Ghost(policy): Ghost<spec_fn(ModelProfileView) -> Option<V::V>>,
) -> (result: Vec<(ModelGlob, V)>)
    requires
        forall|profile: &ModelProfile| #[trigger] call_requires(extract, (profile,)),
        forall|profile: &ModelProfile, result: Option<V>| #[trigger]
            call_ensures(extract, (profile,), result) ==> result.deep_view() == policy(
                profile.deep_view(),
            ),
    ensures
        result.deep_view() == pattern_policies(
            profiles.deep_view(),
            policy,
            profiles@.len() as int,
        ),
{
    let ghost models = profiles.deep_view();
    let mut policies: Vec<(ModelGlob, V)> = Vec::new();
    assert(policies.deep_view() =~= Seq::<(Seq<char>, V::V)>::empty());
    for index in 0..profiles.len()
        invariant
            models == profiles.deep_view(),
            forall|profile: &ModelProfile| #[trigger] call_requires(extract, (profile,)),
            forall|profile: &ModelProfile, result: Option<V>| #[trigger]
                call_ensures(extract, (profile,), result) ==> result.deep_view() == policy(
                    profile.deep_view(),
                ),
            policies.deep_view() == pattern_policies(models, policy, index as int),
    {
        let ghost before = policies.deep_view();
        let compiled = &profiles[index];
        assert(models[index as int] == compiled.deep_view());
        if let Some(glob) = &compiled.glob {
            if compiled.profile.upstream_model.is_none() {
                if let Some(value) = extract(&compiled.profile) {
                    let ghost added = (glob.deep_view(), value.deep_view());
                    policies.push((glob.duplicate(), value));
                    assert(policies.deep_view() =~= before.push(added));
                }
            }
        }
    }
    policies
}

// ---------------------------------------------------------------------------------------------
// Policies of one profile
// ---------------------------------------------------------------------------------------------

/// What is sent for a level that is passed on as `level`.
pub open spec fn effort_fragment(level: Seq<char>) -> JsonView {
    JsonView::Object(Map::empty().insert("reasoning_effort"@, JsonView::Text(level)))
}

/// What is sent for each of the first `count` levels, the levels trimmed and in lower case.
pub open spec fn level_fragments(entries: Seq<(Seq<char>, JsonView)>, count: int) -> Map<
    Seq<char>,
    JsonView,
>
    decreases count,
{
    if count <= 0 {
        Map::empty()
    } else {
        level_fragments(entries, count - 1).insert(
            lowered(trimmed(entries[count - 1].0)),
            entries[count - 1].1,
        )
    }
}

/// What is sent for each of the levels of a typed configuration.
pub open spec fn typed_entries(levels: Map<Seq<char>, Seq<char>>) -> Seq<(Seq<char>, JsonView)> {
    let entries = sorted_entries(levels);
    Seq::new(entries.len(), |k: int| (entries[k].0, effort_fragment(entries[k].1)))
}

/// The level of a request that names none, in lower case.
pub open spec fn default_level(level: Option<Seq<char>>) -> Option<Seq<char>> {
    match filled_text(level) {
        Some(level) => Some(lowered(level)),
        None => None,
    }
}

/// How the reasoning effort is put to the model of a profile.
pub open spec fn effort_policy(profile: ModelProfileView) -> Option<ReasoningEffortPolicyView> {
    match profile.reasoning_effort {
        Some(reasoning) => {
            let entries = typed_entries(reasoning.map);
            Some(
                ReasoningEffortPolicyView {
                    map: level_fragments(entries, entries.len() as int),
                    default: default_level(reasoning.default),
                    upstream_reasoning: Some(reasoning),
                },
            )
        },
        None => if profile.reasoning_effort_map == Map::<Seq<char>, JsonView>::empty() {
            None
        } else {
            let entries = sorted_entries(profile.reasoning_effort_map);
            Some(
                ReasoningEffortPolicyView {
                    map: level_fragments(entries, entries.len() as int),
                    default: default_level(profile.reasoning_effort_default),
                    upstream_reasoning: None,
                },
            )
        },
    }
}

impl ReasoningEffortPolicyView {
    /// What a request that names no level is sent: the default level of a typed configuration as it
    /// is, or else what the default level stands for.
    pub open spec fn unasked(self) -> Option<JsonView> {
        match self.default {
            Some(level) => if self.upstream_reasoning is Some {
                Some(effort_fragment(level))
            } else if self.map.dom().contains(level) {
                Some(self.map[level])
            } else {
                None
            },
            None => None,
        }
    }
}

/// The keyword arguments that are sent to the model of a profile.
pub open spec fn kwargs_policy(profile: ModelProfileView) -> Option<ChatKwargsPolicyView> {
    if profile.upstream_chat_kwargs == Map::<Seq<char>, JsonView>::empty() {
        None
    } else {
        Some(ChatKwargsPolicyView { kwargs: profile.upstream_chat_kwargs })
    }
}

fn fragment_of(level: &str) -> (result: Json)
    ensures
        result.deep_view() == effort_fragment(level@),
{
    json_object1("reasoning_effort", json_text(level))
}

fn typed_fragments(levels: &TextMap<String>) -> (result: TextMap<Json>)
    ensures
        result.deep_view() == level_fragments(
            typed_entries(levels.deep_view()),
            typed_entries(levels.deep_view()).len() as int,
        ),
{
    let count: usize = levels.count();
    let ghost entries = typed_entries(levels.deep_view());
    let mut fragments: TextMap<Json> = TextMap::new();
    for index in 0..count
        invariant
            count == entries.len(),
            levels.listed() == sorted_entries(levels.deep_view()),
            entries == typed_entries(levels.deep_view()),
            fragments.deep_view() == level_fragments(entries, index as int),
    {
        let level = levels.key_at(index).as_str().trim().to_ascii_lowercase();
        fragments.insert(level, fragment_of(levels.value_at(index).as_str()));
    }
    fragments
}

fn free_fragments(levels: &TextMap<Json>) -> (result: TextMap<Json>)
    ensures
        result.deep_view() == level_fragments(
            sorted_entries(levels.deep_view()),
            sorted_entries(levels.deep_view()).len() as int,
        ),
{
    let count: usize = levels.count();
    let ghost entries = sorted_entries(levels.deep_view());
    let mut fragments: TextMap<Json> = TextMap::new();
    for index in 0..count
        invariant
            count == entries.len(),
            levels.listed() == entries,
            entries == sorted_entries(levels.deep_view()),
            fragments.deep_view() == level_fragments(entries, index as int),
    {
        let level = levels.key_at(index).as_str().trim().to_ascii_lowercase();
        fragments.insert(level, levels.value_at(index).duplicate());
    }
    fragments
}

fn lowered_level(level: &Option<String>) -> (result: Option<String>)
    ensures
        result.deep_view() == default_level(level.deep_view()),
{
    match trim_nonempty(level) {
        Some(level) => Some(level.as_str().to_ascii_lowercase()),
        None => None,
    }
}

impl ReasoningEffortPolicy {
    /// What a request that names no level is sent.
    pub fn unasked_fragment(&self) -> (result: Option<Json>)
        ensures
            result.deep_view() == self.deep_view().unasked(),
    {
        match &self.default {
            Some(level) => if self.upstream_reasoning.is_some() {
                Some(fragment_of(level.as_str()))
            } else {
                match self.map.get(level.as_str()) {
                    Some(fragment) => Some(fragment.duplicate()),
                    None => None,
                }
            },
            None => None,
        }
    }
}

/// How the reasoning effort is put to the model of a profile, where the profile says so.
pub fn reasoning_effort_policy_of(profile: &ModelProfile) -> (result: Option<ReasoningEffortPolicy>)
    ensures
        result.deep_view() == effort_policy(profile.deep_view()),
{
    match &profile.reasoning_effort {
        Some(reasoning) => {
            Some(
                ReasoningEffortPolicy {
                    map: typed_fragments(&reasoning.map),
                    default: lowered_level(&reasoning.default),
                    upstream_reasoning: Some(reasoning.duplicate()),
                },
            )
        },
        None => if profile.reasoning_effort_map.is_empty() {
            None
        } else {
            Some(
                ReasoningEffortPolicy {
                    map: free_fragments(&profile.reasoning_effort_map),
                    default: lowered_level(&profile.reasoning_effort_default),
                    upstream_reasoning: None,
                },
            )
        },
    }
}

fn template_family_of(profile: &ModelProfile) -> (result: Option<String>)
    ensures
        result.deep_view() == profile.deep_view().template_family,
{
    profile.template_family.duplicate()
}

fn chat_kwargs_of(profile: &ModelProfile) -> (result: Option<ChatKwargsPolicy>)
    ensures
        result.deep_view() == kwargs_policy(profile.deep_view()),
{
    let ghost entries = profile.upstream_chat_kwargs.deep_view();
    if profile.upstream_chat_kwargs.len() == 0 {
        None
    } else {
        proof {
            assert(map_of(entries).dom().contains(entries.last().0));
        }
        Some(ChatKwargsPolicy { kwargs: profile.upstream_chat_kwargs.duplicate() })
    }
}

impl Config {
    /// How the reasoning effort is put to each model.
    pub fn reasoning_effort_policies(&self) -> (result: TextMap<ReasoningEffortPolicy>)
        ensures
            result.deep_view() == exact_policies(
                self.deep_view().model_profiles,
                |profile: ModelProfileView| effort_policy(profile),
                self.deep_view().model_profiles.len() as int,
            ),
    {
        build_exact_policies(
            &self.model_profiles,
            reasoning_effort_policy_of,
            Ghost(|profile: ModelProfileView| effort_policy(profile)),
        )
    }

    /// How the reasoning effort is put to models that match a pattern.
    pub fn reasoning_effort_policy_globs(&self) -> (result: Vec<(ModelGlob, ReasoningEffortPolicy)>)
        ensures
            result.deep_view() == pattern_policies(
                self.deep_view().model_profiles,
                |profile: ModelProfileView| effort_policy(profile),
                self.deep_view().model_profiles.len() as int,
            ),
    {
        build_glob_policies(
            &self.model_profiles,
            reasoning_effort_policy_of,
            Ghost(|profile: ModelProfileView| effort_policy(profile)),
        )
    }

    /// The family of the chat template of each model.
    pub fn template_family_policies(&self) -> (result: TextMap<String>)
        ensures
            result.deep_view() == exact_policies(
                self.deep_view().model_profiles,
                |profile: ModelProfileView| profile.template_family,
                self.deep_view().model_profiles.len() as int,
            ),
    {
        build_exact_policies(
            &self.model_profiles,
            template_family_of,
            Ghost(|profile: ModelProfileView| profile.template_family),
        )
    }

    /// The family of the chat template of models that match a pattern.
    pub fn template_family_policy_globs(&self) -> (result: Vec<(ModelGlob, String)>)
        ensures
            result.deep_view() == pattern_policies(
                self.deep_view().model_profiles,
                |profile: ModelProfileView| profile.template_family,
                self.deep_view().model_profiles.len() as int,
            ),
    {
        build_glob_policies(
            &self.model_profiles,
            template_family_of,
            Ghost(|profile: ModelProfileView| profile.template_family),
        )
    }

    /// The family of the chat template of models for which none is set.
    pub fn global_template_family(&self) -> (result: Option<String>)
        ensures
            result.deep_view() == self.deep_view().template_family,
    {
        self.template_family.duplicate()
    }

    /// The keyword arguments that are sent to each model.
    pub fn upstream_chat_kwargs_policies(&self) -> (result: TextMap<ChatKwargsPolicy>)
        ensures
            result.deep_view() == exact_policies(
                self.deep_view().model_profiles,
                |profile: ModelProfileView| kwargs_policy(profile),
                self.deep_view().model_profiles.len() as int,
            ),
    {
        build_exact_policies(
            &self.model_profiles,
            chat_kwargs_of,
            Ghost(|profile: ModelProfileView| kwargs_policy(profile)),
        )
    }

    /// The keyword arguments that are sent to models that match a pattern.
    pub fn upstream_chat_kwargs_policy_globs(&self) -> (result: Vec<(ModelGlob, ChatKwargsPolicy)>)
        ensures
            result.deep_view() == pattern_policies(
                self.deep_view().model_profiles,
                |profile: ModelProfileView| kwargs_policy(profile),
                self.deep_view().model_profiles.len() as int,
            ),
    {
        build_glob_policies(
            &self.model_profiles,
            chat_kwargs_of,
            Ghost(|profile: ModelProfileView| kwargs_policy(profile)),
        )
    }

    /// The keyword arguments that are sent to every model.
    pub fn global_upstream_chat_kwargs(&self) -> (result: &JsonMap)
        ensures
            map_of(result.deep_view()) == self.deep_view().upstream_chat_kwargs,
    {
        &self.upstream_chat_kwargs
    }
}

// ---------------------------------------------------------------------------------------------
// Laws
// ---------------------------------------------------------------------------------------------

/// Of several profiles that are served by one model, the first that has a policy sets it.
pub proof fn law_first_policy_stays<V>(
    profiles: Seq<CompiledProfileView>,
    extract: spec_fn(ModelProfileView) -> Option<V>,
    count: int,
    at: int,
)
    requires
        0 <= at < count <= profiles.len(),
        !passes_through(profiles[at]),
        extract(profiles[at].profile) is Some,
        forall|k: int|
            0 <= k < at ==> passes_through(#[trigger] profiles[k]) || backend_model(profiles[k])
                != backend_model(profiles[at]) || extract(profiles[k].profile) is None,
    ensures
        exact_policies(profiles, extract, count).dom().contains(backend_model(profiles[at])),
        exact_policies(profiles, extract, count)[backend_model(profiles[at])] == extract(
            profiles[at].profile,
        )->0,
    decreases count,
{
    if at < count - 1 {
        law_first_policy_stays(profiles, extract, count - 1, at);
    } else {
        lemma_no_policy(profiles, extract, at, backend_model(profiles[at]));
    }
}

proof fn lemma_no_policy<V>(
    profiles: Seq<CompiledProfileView>,
    extract: spec_fn(ModelProfileView) -> Option<V>,
    count: int,
    model: Seq<char>,
)
    requires
        0 <= count <= profiles.len(),
        forall|k: int|
            0 <= k < count ==> passes_through(#[trigger] profiles[k]) || backend_model(profiles[k])
                != model || extract(profiles[k].profile) is None,
    ensures
        !exact_policies(profiles, extract, count).dom().contains(model),
    decreases count,
{
    if count > 0 {
        lemma_no_policy(profiles, extract, count - 1, model);
        assert(passes_through(profiles[count - 1]) || backend_model(profiles[count - 1]) != model
            || extract(profiles[count - 1].profile) is None);
    }
}

/// A level of a typed configuration is translated as it is mapped, also where it is the default
/// level. Of several levels that differ only in case or whitespace the last counts.
pub proof fn law_mapped_levels_are_translated(profile: ModelProfileView, at: int)
    requires
        profile.reasoning_effort is Some,
        0 <= at < typed_entries(profile.reasoning_effort->0.map).len(),
        ({
            let entries = typed_entries(profile.reasoning_effort->0.map);
            forall|k: int|
                at < k < entries.len() ==> lowered(trimmed((#[trigger] entries[k]).0)) != lowered(
                    trimmed(entries[at].0),
                )
        }),
    ensures
        ({
            let (level, sent) = sorted_entries(profile.reasoning_effort->0.map)[at];
            &&& effort_policy(profile) matches Some(policy)
            &&& policy.map.dom().contains(lowered(trimmed(level)))
            &&& policy.map[lowered(trimmed(level))] == effort_fragment(sent)
        }),
{
    let entries = typed_entries(profile.reasoning_effort->0.map);
    lemma_last_level_counts(entries, entries.len() as int, at);
}

pub(super) proof fn lemma_last_level_counts(entries: Seq<(Seq<char>, JsonView)>, count: int, at: int)
    requires
        0 <= at < count <= entries.len(),
        forall|k: int|
            at < k < count ==> lowered(trimmed((#[trigger] entries[k]).0)) != lowered(
                trimmed(entries[at].0),
            ),
    ensures
        level_fragments(entries, count).dom().contains(lowered(trimmed(entries[at].0))),
        level_fragments(entries, count)[lowered(trimmed(entries[at].0))] == entries[at].1,
    decreases count,
{
    if at < count - 1 {
        lemma_last_level_counts(entries, count - 1, at);
    }
}

/// A request that names no level is sent the default level of a typed configuration as it is,
/// whatever that level is mapped to.
pub proof fn law_default_level_is_sent_as_it_is(profile: ModelProfileView)
    requires
        profile.reasoning_effort is Some,
    ensures
        effort_policy(profile) matches Some(policy) && policy.unasked() == match default_level(
            profile.reasoning_effort->0.default,
        ) {
            Some(level) => Some(effort_fragment(level)),
            None => None,
        },
{
}

} // verus!
