//! Model profiles: how they are put together out of templates, and what they have to make sense of.
use vstd::prelude::*;

use crate::collections::{
    entries_map, keys_ascending, lemma_entries_map_at, first_like, sorted_entries, value_named, TextMap,
};
use crate::duplicate::Duplicate;
use crate::error::outcome;
use crate::json::{map_of, set_entry, Json, JsonMap, JsonView};
use crate::text::{join, joined, lowered, quoted, quoted_text, same_text, trimmed};

use super::capabilities::{CapabilitiesConfig, CapabilitiesConfigView};
use super::glob::{compile_model_glob, key_glob, ModelGlob};
use super::merge::{merge_json_maps, merged_maps};
use super::reasoning::{filled_text, trim_nonempty, ReasoningConfig, ReasoningConfigView};
use super::roles::{RolesConfig, RolesConfigView};

verus! {

/// What happens to an image that is left over after images have been redirected.
#[derive(Clone, Copy, Debug, PartialEq, Eq, Structural)]
pub enum ResidualImagePolicy {
    Placeholder,
    Reject,
}

impl DeepView for ResidualImagePolicy {
    type V = ResidualImagePolicy;

    open spec fn deep_view(&self) -> ResidualImagePolicy {
        *self
    }
}

impl Duplicate for ResidualImagePolicy {
    fn duplicate(&self) -> (copy: Self) {
        *self
    }
}

/// The profile that looks at images in place of this one.
#[derive(Debug, PartialEq)]
pub struct ImageAnalysisConfig {
    pub model: String,
    pub residual_images: ResidualImagePolicy,
}

/// The model of [`ImageAnalysisConfig`].
pub struct ImageAnalysisConfigView {
    pub model: Seq<char>,
    pub residual_images: ResidualImagePolicy,
}

impl DeepView for ImageAnalysisConfig {
    type V = ImageAnalysisConfigView;

    open spec fn deep_view(&self) -> ImageAnalysisConfigView {
        ImageAnalysisConfigView {
            model: self.model@,
            residual_images: self.residual_images,
        }
    }
}

impl Duplicate for ImageAnalysisConfig {
    fn duplicate(&self) -> (copy: Self) {
        ImageAnalysisConfig {
            model: self.model.clone(),
            residual_images: self.residual_images,
        }
    }
}

/// An upstream to try after the first, as it is configured.
#[derive(Debug, PartialEq)]
pub struct PersistedProfileFallback {
    pub upstream: String,
    pub model: Option<String>,
}

/// The model of [`PersistedProfileFallback`].
pub struct PersistedProfileFallbackView {
    pub upstream: Seq<char>,
    pub model: Option<Seq<char>>,
}

impl DeepView for PersistedProfileFallback {
    type V = PersistedProfileFallbackView;

    open spec fn deep_view(&self) -> PersistedProfileFallbackView {
        PersistedProfileFallbackView {
            upstream: self.upstream@,
            model: self.model.deep_view(),
        }
    }
}

impl Duplicate for PersistedProfileFallback {
    fn duplicate(&self) -> (copy: Self) {
        PersistedProfileFallback {
            upstream: self.upstream.clone(),
            model: self.model.duplicate(),
        }
    }
}

/// An upstream to try after the first.
#[derive(Debug, PartialEq)]
pub struct ProfileFallback {
    pub upstream: String,
    pub model: Option<String>,
}

/// The model of [`ProfileFallback`].
pub struct ProfileFallbackView {
    pub upstream: Seq<char>,
    pub model: Option<Seq<char>>,
}

impl DeepView for ProfileFallback {
    type V = ProfileFallbackView;

    open spec fn deep_view(&self) -> ProfileFallbackView {
        ProfileFallbackView {
            upstream: self.upstream@,
            model: self.model.deep_view(),
        }
    }
}

impl Duplicate for ProfileFallback {
    fn duplicate(&self) -> (copy: Self) {
        ProfileFallback {
            upstream: self.upstream.clone(),
            model: self.model.duplicate(),
        }
    }
}

/// A model profile as it is configured.
#[derive(Debug, PartialEq)]
pub struct PersistedModelProfile {
    pub extends: Vec<String>,
    pub upstream: Option<String>,
    pub upstream_model: Option<String>,
    pub system_prompt_prefix: Option<String>,
    pub roles: Option<RolesConfig>,
    pub template_family: Option<String>,
    pub native_vision: Option<Json>,
    pub fallbacks: Option<Vec<PersistedProfileFallback>>,
    pub image_analysis: Option<ImageAnalysisConfig>,
    pub upstream_chat_kwargs: JsonMap,
    pub reasoning_effort_map: TextMap<Json>,
    pub reasoning_effort_default: Option<String>,
    pub capabilities: Option<CapabilitiesConfig>,
    pub reasoning_effort: Option<ReasoningConfig>,
}

/// The model of [`PersistedModelProfile`].
pub struct PersistedModelProfileView {
    pub extends: Seq<Seq<char>>,
    pub upstream: Option<Seq<char>>,
    pub upstream_model: Option<Seq<char>>,
    pub system_prompt_prefix: Option<Seq<char>>,
    pub roles: Option<RolesConfigView>,
    pub template_family: Option<Seq<char>>,
    pub native_vision: Option<JsonView>,
    pub fallbacks: Option<Seq<PersistedProfileFallbackView>>,
    pub image_analysis: Option<ImageAnalysisConfigView>,
    pub upstream_chat_kwargs: Map<Seq<char>, JsonView>,
    pub reasoning_effort_map: Map<Seq<char>, JsonView>,
    pub reasoning_effort_default: Option<Seq<char>>,
    pub capabilities: Option<CapabilitiesConfigView>,
    pub reasoning_effort: Option<ReasoningConfigView>,
}

impl DeepView for PersistedModelProfile {
    type V = PersistedModelProfileView;

    open spec fn deep_view(&self) -> PersistedModelProfileView {
        PersistedModelProfileView {
            extends: self.extends.deep_view(),
            upstream: self.upstream.deep_view(),
            upstream_model: self.upstream_model.deep_view(),
            system_prompt_prefix: self.system_prompt_prefix.deep_view(),
            roles: self.roles.deep_view(),
            template_family: self.template_family.deep_view(),
            native_vision: self.native_vision.deep_view(),
            fallbacks: self.fallbacks.deep_view(),
            image_analysis: self.image_analysis.deep_view(),
            upstream_chat_kwargs: map_of(self.upstream_chat_kwargs.deep_view()),
            reasoning_effort_map: self.reasoning_effort_map.deep_view(),
            reasoning_effort_default: self.reasoning_effort_default.deep_view(),
            capabilities: self.capabilities.deep_view(),
            reasoning_effort: self.reasoning_effort.deep_view(),
        }
    }
}

impl Duplicate for PersistedModelProfile {
    fn duplicate(&self) -> (copy: Self) {
        PersistedModelProfile {
            extends: self.extends.duplicate(),
            upstream: self.upstream.duplicate(),
            upstream_model: self.upstream_model.duplicate(),
            system_prompt_prefix: self.system_prompt_prefix.duplicate(),
            roles: self.roles.duplicate(),
            template_family: self.template_family.duplicate(),
            native_vision: self.native_vision.duplicate(),
            fallbacks: self.fallbacks.duplicate(),
            image_analysis: self.image_analysis.duplicate(),
            upstream_chat_kwargs: self.upstream_chat_kwargs.duplicate(),
            reasoning_effort_map: self.reasoning_effort_map.duplicate(),
            reasoning_effort_default: self.reasoning_effort_default.duplicate(),
            capabilities: self.capabilities.duplicate(),
            reasoning_effort: self.reasoning_effort.duplicate(),
        }
    }
}

/// A model profile with everything that it inherits.
#[derive(Debug, PartialEq)]
pub struct ModelProfile {
    pub upstream: String,
    pub upstream_model: Option<String>,
    pub system_prompt_prefix: Option<String>,
    pub roles: Option<RolesConfig>,
    pub template_family: Option<String>,
    pub upstream_chat_kwargs: JsonMap,
    pub reasoning_effort_map: TextMap<Json>,
    pub reasoning_effort_default: Option<String>,
    pub capabilities: Option<CapabilitiesConfig>,
    pub reasoning_effort: Option<ReasoningConfig>,
    pub fallbacks: Vec<ProfileFallback>,
    pub image_analysis: Option<ImageAnalysisConfig>,
}

/// The model of [`ModelProfile`].
pub struct ModelProfileView {
    pub upstream: Seq<char>,
    pub upstream_model: Option<Seq<char>>,
    pub system_prompt_prefix: Option<Seq<char>>,
    pub roles: Option<RolesConfigView>,
    pub template_family: Option<Seq<char>>,
    pub upstream_chat_kwargs: Map<Seq<char>, JsonView>,
    pub reasoning_effort_map: Map<Seq<char>, JsonView>,
    pub reasoning_effort_default: Option<Seq<char>>,
    pub capabilities: Option<CapabilitiesConfigView>,
    pub reasoning_effort: Option<ReasoningConfigView>,
    pub fallbacks: Seq<ProfileFallbackView>,
    pub image_analysis: Option<ImageAnalysisConfigView>,
}

impl DeepView for ModelProfile {
    type V = ModelProfileView;

    open spec fn deep_view(&self) -> ModelProfileView {
        ModelProfileView {
            upstream: self.upstream@,
            upstream_model: self.upstream_model.deep_view(),
            system_prompt_prefix: self.system_prompt_prefix.deep_view(),
            roles: self.roles.deep_view(),
            template_family: self.template_family.deep_view(),
            upstream_chat_kwargs: map_of(self.upstream_chat_kwargs.deep_view()),
            reasoning_effort_map: self.reasoning_effort_map.deep_view(),
            reasoning_effort_default: self.reasoning_effort_default.deep_view(),
            capabilities: self.capabilities.deep_view(),
            reasoning_effort: self.reasoning_effort.deep_view(),
            fallbacks: self.fallbacks.deep_view(),
            image_analysis: self.image_analysis.deep_view(),
        }
    }
}

impl Duplicate for ModelProfile {
    fn duplicate(&self) -> (copy: Self) {
        ModelProfile {
            upstream: self.upstream.clone(),
            upstream_model: self.upstream_model.duplicate(),
            system_prompt_prefix: self.system_prompt_prefix.duplicate(),
            roles: self.roles.duplicate(),
            template_family: self.template_family.duplicate(),
            upstream_chat_kwargs: self.upstream_chat_kwargs.duplicate(),
            reasoning_effort_map: self.reasoning_effort_map.duplicate(),
            reasoning_effort_default: self.reasoning_effort_default.duplicate(),
            capabilities: self.capabilities.duplicate(),
            reasoning_effort: self.reasoning_effort.duplicate(),
            fallbacks: self.fallbacks.duplicate(),
            image_analysis: self.image_analysis.duplicate(),
        }
    }
}

/// A model profile while it is put together.
#[derive(Debug, PartialEq)]
pub struct ResolvedModelProfile {
    pub upstream: Option<String>,
    pub upstream_model: Option<String>,
    pub system_prompt_prefixes: Vec<String>,
    pub roles: Option<RolesConfig>,
    pub template_family: Option<String>,
    pub upstream_chat_kwargs: JsonMap,
    pub reasoning_effort_map: TextMap<Json>,
    pub reasoning_effort_default: Option<String>,
    pub capabilities: Option<CapabilitiesConfig>,
    pub reasoning_effort: Option<ReasoningConfig>,
    pub fallbacks: Option<Vec<PersistedProfileFallback>>,
    pub image_analysis: Option<ImageAnalysisConfig>,
}

/// The model of [`ResolvedModelProfile`].
pub struct ResolvedModelProfileView {
    pub upstream: Option<Seq<char>>,
    pub upstream_model: Option<Seq<char>>,
    pub system_prompt_prefixes: Seq<Seq<char>>,
    pub roles: Option<RolesConfigView>,
    pub template_family: Option<Seq<char>>,
    pub upstream_chat_kwargs: Map<Seq<char>, JsonView>,
    pub reasoning_effort_map: Map<Seq<char>, JsonView>,
    pub reasoning_effort_default: Option<Seq<char>>,
    pub capabilities: Option<CapabilitiesConfigView>,
    pub reasoning_effort: Option<ReasoningConfigView>,
    pub fallbacks: Option<Seq<PersistedProfileFallbackView>>,
    pub image_analysis: Option<ImageAnalysisConfigView>,
}

impl DeepView for ResolvedModelProfile {
    type V = ResolvedModelProfileView;

    open spec fn deep_view(&self) -> ResolvedModelProfileView {
        ResolvedModelProfileView {
            upstream: self.upstream.deep_view(),
            upstream_model: self.upstream_model.deep_view(),
            system_prompt_prefixes: self.system_prompt_prefixes.deep_view(),
            roles: self.roles.deep_view(),
            template_family: self.template_family.deep_view(),
            upstream_chat_kwargs: map_of(self.upstream_chat_kwargs.deep_view()),
            reasoning_effort_map: self.reasoning_effort_map.deep_view(),
            reasoning_effort_default: self.reasoning_effort_default.deep_view(),
            capabilities: self.capabilities.deep_view(),
            reasoning_effort: self.reasoning_effort.deep_view(),
            fallbacks: self.fallbacks.deep_view(),
            image_analysis: self.image_analysis.deep_view(),
        }
    }
}

/// A model profile under its key, which is a name or a pattern.
#[derive(Debug)]
pub struct CompiledProfile {
    pub key: String,
    pub glob: Option<ModelGlob>,
    pub profile: ModelProfile,
}

/// The model of [`CompiledProfile`].
pub struct CompiledProfileView {
    pub key: Seq<char>,
    pub glob: Option<Seq<char>>,
    pub profile: ModelProfileView,
}

impl DeepView for CompiledProfile {
    type V = CompiledProfileView;

    open spec fn deep_view(&self) -> CompiledProfileView {
        CompiledProfileView {
            key: self.key@,
            glob: self.glob.deep_view(),
            profile: self.profile.deep_view(),
        }
    }
}

impl Duplicate for CompiledProfile {
    fn duplicate(&self) -> (copy: Self) {
        CompiledProfile {
            key: self.key.clone(),
            glob: self.glob.duplicate(),
            profile: self.profile.duplicate(),
        }
    }
}

/// The model profiles as they are configured, in the order of their declaration.
#[derive(Debug, PartialEq)]
pub struct OrderedModelProfiles(pub Vec<(String, PersistedModelProfile)>);

impl DeepView for OrderedModelProfiles {
    type V = Seq<(Seq<char>, PersistedModelProfileView)>;

    open spec fn deep_view(&self) -> Seq<(Seq<char>, PersistedModelProfileView)> {
        self.0.deep_view()
    }
}

impl Duplicate for OrderedModelProfiles {
    fn duplicate(&self) -> (copy: Self) {
        OrderedModelProfiles(self.0.duplicate())
    }
}

/// Whether two names are the same but for whitespace around them and the case of their letters.
pub open spec fn same_name(one: Seq<char>, other: Seq<char>) -> bool {
    lowered(trimmed(one)) == lowered(trimmed(other))
}

/// Whether two names are the same but for whitespace around them and the case of their letters.
pub fn names_agree(one: &str, other: &str) -> (result: bool)
    ensures
        result == same_name(one@, other@),
{
    one.trim().eq_ignore_ascii_case(other.trim())
}

/// The place of the first profile with the same name, or the number of profiles.
pub open spec fn profile_place(
    profiles: Seq<(Seq<char>, PersistedModelProfileView)>,
    name: Seq<char>,
) -> nat
    decreases profiles.len(),
{
    if profiles.len() == 0 || same_name(profiles[0].0, name) {
        0
    } else {
        1 + profile_place(profiles.drop_first(), name)
    }
}

/// `profiles` with `profile` under `name`: in place of the first with the same name, or at the end.
pub open spec fn upserted(
    profiles: Seq<(Seq<char>, PersistedModelProfileView)>,
    name: Seq<char>,
    profile: PersistedModelProfileView,
) -> Seq<(Seq<char>, PersistedModelProfileView)> {
    let place = profile_place(profiles, name) as int;
    if place < profiles.len() {
        profiles.update(place, (name, profile))
    } else {
        profiles.push((name, profile))
    }
}

proof fn lemma_profile_place(
    profiles: Seq<(Seq<char>, PersistedModelProfileView)>,
    name: Seq<char>,
    place: int,
)
    requires
        0 <= place <= profiles.len(),
        forall|k: int| 0 <= k < place ==> !same_name((#[trigger] profiles[k]).0, name),
        place < profiles.len() ==> same_name(profiles[place].0, name),
    ensures
        profile_place(profiles, name) == place,
    decreases profiles.len(),
{
    if place > 0 {
        assert(!same_name(profiles[0].0, name));
        let rest = profiles.drop_first();
        assert forall|k: int| 0 <= k < place - 1 implies !same_name((#[trigger] rest[k]).0, name) by {
            assert(rest[k] == profiles[k + 1]);
        }
        lemma_profile_place(rest, name, place - 1);
    }
}

impl OrderedModelProfiles {
    pub fn is_empty(&self) -> (result: bool)
        ensures
            result == (self.deep_view().len() == 0),
    {
        self.0.len() == 0
    }

    /// The place of the profile with the given name, or the number of profiles.
    pub fn place_of(&self, name: &str) -> (place: usize)
        ensures
            place == profile_place(self.deep_view(), name@),
            place <= self.deep_view().len(),
    {
        let ghost models = self.0.deep_view();
        let mut place: usize = 0;
        while place < self.0.len() && !names_agree(self.0[place].0.as_str(), name)
            invariant
                models == self.0.deep_view(),
                place <= self.0@.len(),
                forall|k: int| 0 <= k < place ==> !same_name((#[trigger] models[k]).0, name@),
            decreases self.0.len() - place,
        {
            assert(models[place as int].0 == self.0@[place as int].0@);
            place = place + 1;
        }
        proof {
            if place < self.0@.len() {
                assert(models[place as int].0 == self.0@[place as int].0@);
            }
            lemma_profile_place(models, name@, place as int);
        }
        place
    }

    /// Puts a profile under a name. A profile with the same name gives up its place to it; a new
    /// name goes to the end.
    pub fn upsert(&mut self, name: String, profile: PersistedModelProfile)
        ensures
            final(self).deep_view() == upserted(
                old(self).deep_view(),
                name@,
                profile.deep_view(),
            ),
    {
        let ghost before = self.0.deep_view();
        let place = self.place_of(name.as_str());
        let ghost entry = (name@, profile.deep_view());
        if place < self.0.len() {
            self.0[place] = (name, profile);
            assert(self.0.deep_view() =~= before.update(place as int, entry));
        } else {
            self.0.push((name, profile));
            assert(self.0.deep_view() =~= before.push(entry));
        }
    }
}

// ---------------------------------------------------------------------------------------------
// Small parts
// ---------------------------------------------------------------------------------------------

/// A fallback with its model trimmed; a blank model is none.
pub open spec fn fallback_of(persisted: PersistedProfileFallbackView) -> ProfileFallbackView {
    ProfileFallbackView { upstream: persisted.upstream, model: filled_text(persisted.model) }
}

impl ProfileFallback {
    /// A fallback with its model trimmed; a blank model is none.
    pub fn from_persisted(persisted: &PersistedProfileFallback) -> (result: Self)
        ensures
            result.deep_view() == fallback_of(persisted.deep_view()),
    {
        ProfileFallback {
            upstream: persisted.upstream.clone(),
            model: trim_nonempty(&persisted.model),
        }
    }
}

/// The family of chat templates that a name stands for, where it stands for one.
pub open spec fn known_family(name: Option<Seq<char>>) -> Option<Seq<char>> {
    match filled_text(name) {
        Some(family) => if lowered(family) == "kimi"@ {
            Some("kimi"@)
        } else if lowered(family) == "deepseek"@ {
            Some("deepseek"@)
        } else {
            None
        },
        None => None,
    }
}

/// The family of chat templates that a name stands for, where it stands for one.
pub fn normalize_template_family(name: &Option<String>) -> (result: Option<String>)
    ensures
        result.deep_view() == known_family(name.deep_view()),
{
    match trim_nonempty(name) {
        Some(family) => {
            let family = family.as_str().to_ascii_lowercase();
            if same_text(family.as_str(), "kimi") {
                Some("kimi".to_string())
            } else if same_text(family.as_str(), "deepseek") {
                Some("deepseek".to_string())
            } else {
                None
            }
        },
        None => None,
    }
}

/// The first `count` prefixes, trimmed, without the blank ones.
pub open spec fn filled_prefixes(prefixes: Seq<Seq<char>>, count: int) -> Seq<Seq<char>>
    decreases count,
{
    if count <= 0 {
        Seq::empty()
    } else if trimmed(prefixes[count - 1]).len() > 0 {
        filled_prefixes(prefixes, count - 1).push(trimmed(prefixes[count - 1]))
    } else {
        filled_prefixes(prefixes, count - 1)
    }
}

/// The prefixes with a blank line between each two, where there are any.
pub open spec fn joined_prefixes(prefixes: Seq<Seq<char>>) -> Option<Seq<char>> {
    let filled = filled_prefixes(prefixes, prefixes.len() as int);
    if filled.len() == 0 {
        None
    } else {
        Some(joined(filled, "\n\n"@))
    }
}

/// The prefixes with a blank line between each two, where there are any.
pub fn join_prompt_prefixes(prefixes: &Vec<String>) -> (result: Option<String>)
    ensures
        result.deep_view() == joined_prefixes(prefixes.deep_view()),
{
    let ghost given = prefixes.deep_view();
    let mut filled: Vec<String> = Vec::new();
    assert(filled.deep_view() =~= Seq::<Seq<char>>::empty());
    for index in 0..prefixes.len()
        invariant
            given == prefixes.deep_view(),
            filled.deep_view() == filled_prefixes(given, index as int),
    {
        let ghost before = filled.deep_view();
        assert(given[index as int] == prefixes@[index as int]@);
        let prefix = prefixes[index].as_str().trim();
        if !prefix.is_empty() {
            filled.push(prefix.to_string());
            assert(filled.deep_view() =~= before.push(prefix@));
        }
    }
    if filled.len() == 0 {
        None
    } else {
        Some(join(&filled, "\n\n"))
    }
}

/// The fields of a profile that are no keyword arguments for the upstream.
pub open spec fn is_profile_field(key: Seq<char>) -> bool {
    ||| key == "template_family"@
    ||| key == "native_vision"@
    ||| key == "upstream"@
    ||| key == "fallbacks"@
    ||| key == "image_analysis"@
    ||| key == "reasoning_effort_map"@
    ||| key == "reasoning_effort_default"@
    ||| key == "reasoning_effort"@
    ||| key == "roles"@
    ||| key == "capabilities"@
}

/// The keyword arguments among the fields of a profile.
pub open spec fn shorthand_fields(fields: Map<Seq<char>, JsonView>) -> Map<Seq<char>, JsonView> {
    fields.remove_keys(Set::new(|key: Seq<char>| is_profile_field(key)))
}

fn names_profile_field(key: &str) -> (result: bool)
    ensures
        result == is_profile_field(key@),
{
    same_text(key, "template_family") || same_text(key, "native_vision") || same_text(
        key,
        "upstream",
    ) || same_text(key, "fallbacks") || same_text(key, "image_analysis") || same_text(
        key,
        "reasoning_effort_map",
    ) || same_text(key, "reasoning_effort_default") || same_text(key, "reasoning_effort")
        || same_text(key, "roles") || same_text(key, "capabilities")
}

/// The keyword arguments of a profile: fields that a profile does not know stand for arguments,
/// and arguments that are given as such go over them.
pub fn shorthand_chat_kwargs(fields: &JsonMap, explicit: &JsonMap) -> (result: JsonMap)
    ensures
        map_of(result.deep_view()) == merged_maps(
            shorthand_fields(map_of(fields.deep_view())),
            map_of(explicit.deep_view()),
        ),
{
    let ghost given = fields.deep_view();
    let mut kept: JsonMap = Vec::new();
    assert(shorthand_fields(map_of(given.take(0))) =~= Map::empty());
    for index in 0..fields.len()
        invariant
            given == fields.deep_view(),
            map_of(kept.deep_view()) == shorthand_fields(map_of(given.take(index as int))),
    {
        let ghost after = map_of(given.take(index + 1));
        let key = &fields[index].0;
        proof {
            assert(given.take(index + 1).drop_last() =~= given.take(index as int));
            assert(given.take(index + 1).last() == fields@[index as int].deep_view());
        }
        if !names_profile_field(key.as_str()) {
            set_entry(&mut kept, key.clone(), fields[index].1.duplicate());
        }
        assert(map_of(kept.deep_view()) =~= shorthand_fields(after));
    }
    assert(given.take(given.len() as int) =~= given);
    merge_json_maps(&mut kept, explicit);
    kept
}

impl Default for PersistedModelProfile {
    fn default() -> (result: Self)
        ensures
            result.deep_view() == empty_profile(),
    {
        let extends: Vec<String> = Vec::new();
        let upstream_chat_kwargs: JsonMap = Vec::new();
        assert(extends.deep_view() =~= Seq::<Seq<char>>::empty());
        PersistedModelProfile {
            extends,
            upstream: None,
            upstream_model: None,
            system_prompt_prefix: None,
            roles: None,
            template_family: None,
            native_vision: None,
            fallbacks: None,
            image_analysis: None,
            upstream_chat_kwargs,
            reasoning_effort_map: TextMap::new(),
            reasoning_effort_default: None,
            capabilities: None,
            reasoning_effort: None,
        }
    }
}

/// A profile in which nothing is configured.
pub open spec fn empty_profile() -> PersistedModelProfileView {
    PersistedModelProfileView {
        extends: Seq::empty(),
        upstream: None,
        upstream_model: None,
        system_prompt_prefix: None,
        roles: None,
        template_family: None,
        native_vision: None,
        fallbacks: None,
        image_analysis: None,
        upstream_chat_kwargs: Map::empty(),
        reasoning_effort_map: Map::empty(),
        reasoning_effort_default: None,
        capabilities: None,
        reasoning_effort: None,
    }
}

// ---------------------------------------------------------------------------------------------
// Inheritance
// ---------------------------------------------------------------------------------------------

/// `new` where there is one, else `old`.
pub open spec fn over<T>(old: Option<T>, new: Option<T>) -> Option<T> {
    if new is Some {
        new
    } else {
        old
    }
}

impl ResolvedModelProfileView {
    /// A profile that has inherited nothing yet.
    pub open spec fn empty() -> Self {
        ResolvedModelProfileView {
            upstream: None,
            upstream_model: None,
            system_prompt_prefixes: Seq::empty(),
            roles: None,
            template_family: None,
            upstream_chat_kwargs: Map::empty(),
            reasoning_effort_map: Map::empty(),
            reasoning_effort_default: None,
            capabilities: None,
            reasoning_effort: None,
            fallbacks: None,
            image_analysis: None,
        }
    }

    /// The profile with another one over it. What the other sets replaces what was there; prompt
    /// prefixes add up, keyword arguments are merged, and levels of effort are replaced one by
    /// one. The two ways of configuring effort displace each other.
    pub open spec fn with(self, other: Self) -> Self {
        let typed = other.reasoning_effort is Some;
        let by_level = other.reasoning_effort_map != Map::<Seq<char>, JsonView>::empty()
            || other.reasoning_effort_default is Some;
        let levels = if typed {
            Map::empty()
        } else {
            self.reasoning_effort_map
        };
        let default = if typed {
            None
        } else {
            self.reasoning_effort_default
        };
        ResolvedModelProfileView {
            upstream: over(self.upstream, other.upstream),
            upstream_model: over(self.upstream_model, other.upstream_model),
            system_prompt_prefixes: self.system_prompt_prefixes + other.system_prompt_prefixes,
            roles: over(self.roles, other.roles),
            template_family: over(self.template_family, other.template_family),
            upstream_chat_kwargs: merged_maps(
                self.upstream_chat_kwargs,
                other.upstream_chat_kwargs,
            ),
            reasoning_effort_map: levels.union_prefer_right(other.reasoning_effort_map),
            reasoning_effort_default: over(default, other.reasoning_effort_default),
            capabilities: over(self.capabilities, other.capabilities),
            reasoning_effort: if typed {
                other.reasoning_effort
            } else if by_level {
                None
            } else {
                self.reasoning_effort
            },
            fallbacks: over(self.fallbacks, other.fallbacks),
            image_analysis: over(self.image_analysis, other.image_analysis),
        }
    }

    /// The whole profile.
    pub open spec fn finished(self) -> ModelProfileView {
        ModelProfileView {
            upstream: match self.upstream {
                Some(upstream) => upstream,
                None => Seq::empty(),
            },
            upstream_model: self.upstream_model,
            system_prompt_prefix: joined_prefixes(self.system_prompt_prefixes),
            roles: self.roles,
            template_family: known_family(self.template_family),
            upstream_chat_kwargs: self.upstream_chat_kwargs,
            reasoning_effort_map: self.reasoning_effort_map,
            reasoning_effort_default: self.reasoning_effort_default,
            capabilities: self.capabilities,
            reasoning_effort: self.reasoning_effort,
            fallbacks: match self.fallbacks {
                Some(fallbacks) => fallbacks.map_values(
                    |fallback: PersistedProfileFallbackView| fallback_of(fallback),
                ),
                None => Seq::empty(),
            },
            image_analysis: self.image_analysis,
        }
    }
}

/// What a profile sets by itself, as something that goes over what it inherits.
pub open spec fn own_settings(profile: PersistedModelProfileView) -> ResolvedModelProfileView {
    ResolvedModelProfileView {
        upstream: filled_text(profile.upstream),
        upstream_model: filled_text(profile.upstream_model),
        system_prompt_prefixes: match filled_text(profile.system_prompt_prefix) {
            Some(prefix) => seq![prefix],
            None => Seq::empty(),
        },
        roles: profile.roles,
        template_family: filled_text(profile.template_family),
        upstream_chat_kwargs: profile.upstream_chat_kwargs,
        reasoning_effort_map: profile.reasoning_effort_map,
        reasoning_effort_default: profile.reasoning_effort_default,
        capabilities: profile.capabilities,
        reasoning_effort: profile.reasoning_effort,
        fallbacks: profile.fallbacks,
        image_analysis: profile.image_analysis,
    }
}

/// `inherited` with what the profile sets by itself over it.
pub open spec fn with_own_settings(
    inherited: ResolvedModelProfileView,
    profile: PersistedModelProfileView,
) -> Result<ResolvedModelProfileView, Seq<char>> {
    if profile.native_vision is Some {
        Err(
            "`native_vision` was removed; native image passthrough is the default and `image_analysis` enables the redirect (see README \"Migrating\")"@,
        )
    } else {
        Ok(inherited.with(own_settings(profile)))
    }
}

/// What a profile inherits from the first `count` templates that it extends, or why it cannot.
/// Later templates go over earlier ones. `stack` are the templates on the way here, and `room` is
/// how many more can be entered before one has to come up twice.
pub open spec fn inherited(
    profile: PersistedModelProfileView,
    templates: Map<Seq<char>, PersistedModelProfileView>,
    stack: Seq<Seq<char>>,
    room: nat,
    count: nat,
) -> Result<ResolvedModelProfileView, Seq<char>>
    decreases room, count,
{
    if count == 0 {
        Ok(ResolvedModelProfileView::empty())
    } else {
        let name = trimmed(profile.extends[count - 1]);
        match inherited(profile, templates, stack, room, (count - 1) as nat) {
            Err(message) => Err(message),
            Ok(before) => if name.len() == 0 {
                Ok(before)
            } else if stack.contains(name) || room == 0 {
                Err("template cycle: "@ + joined(stack.push(name), " -> "@))
            } else {
                match value_named(templates, name) {
                    None => Err("unknown template "@ + quoted(name)),
                    Some(template) => match whole_profile(
                        template,
                        templates,
                        stack.push(name),
                        (room - 1) as nat,
                    ) {
                        Err(message) => Err(message),
                        Ok(inner) => Ok(before.with(inner)),
                    },
                }
            },
        }
    }
}

/// A profile with everything that it inherits, or why it cannot be put together.
pub open spec fn whole_profile(
    profile: PersistedModelProfileView,
    templates: Map<Seq<char>, PersistedModelProfileView>,
    stack: Seq<Seq<char>>,
    room: nat,
) -> Result<ResolvedModelProfileView, Seq<char>>
    decreases room, profile.extends.len() + 1,
{
    match inherited(profile, templates, stack, room, profile.extends.len()) {
        Err(message) => Err(message),
        Ok(before) => with_own_settings(before, profile),
    }
}

/// The names of the templates that the first `count` of `entries` extend.
pub open spec fn extended_names(entries: Seq<(Seq<char>, PersistedModelProfileView)>, count: int) -> Seq<
    Seq<char>,
>
    decreases count,
{
    if count <= 0 {
        Seq::empty()
    } else {
        extended_names(entries, count - 1) + names_extended(entries[count - 1].1)
    }
}

/// The names of the templates that a profile extends.
pub open spec fn names_extended(profile: PersistedModelProfileView) -> Seq<Seq<char>> {
    profile.extends.map_values(|name: Seq<char>| trimmed(name))
}

/// All the names that can come up while a profile is put together.
pub open spec fn all_names(
    profile: PersistedModelProfileView,
    templates: Map<Seq<char>, PersistedModelProfileView>,
) -> Seq<Seq<char>> {
    let entries = sorted_entries(templates);
    names_extended(profile) + extended_names(entries, entries.len() as int)
}

/// A profile with everything that it inherits, or why it cannot be put together.
pub open spec fn complete_profile(
    profile: PersistedModelProfileView,
    templates: Map<Seq<char>, PersistedModelProfileView>,
) -> Result<ResolvedModelProfileView, Seq<char>> {
    whole_profile(profile, templates, Seq::empty(), all_names(profile, templates).len())
}

impl ResolvedModelProfile {
    fn empty() -> (result: Self)
        ensures
            result.deep_view() == ResolvedModelProfileView::empty(),
    {
        let system_prompt_prefixes: Vec<String> = Vec::new();
        let upstream_chat_kwargs: JsonMap = Vec::new();
        assert(system_prompt_prefixes.deep_view() =~= Seq::<Seq<char>>::empty());
        ResolvedModelProfile {
            upstream: None,
            upstream_model: None,
            system_prompt_prefixes,
            roles: None,
            template_family: None,
            upstream_chat_kwargs,
            reasoning_effort_map: TextMap::new(),
            reasoning_effort_default: None,
            capabilities: None,
            reasoning_effort: None,
            fallbacks: None,
            image_analysis: None,
        }
    }

    /// The whole profile.
    pub fn into_model_profile(self) -> (result: ModelProfile)
        ensures
            result.deep_view() == self.deep_view().finished(),
    {
        let mut fallbacks: Vec<ProfileFallback> = Vec::new();
        match &self.fallbacks {
            Some(listed) => {
                for index in 0..listed.len()
                    invariant
                        fallbacks@.len() == index,
                        forall|k: int|
                            0 <= k < index ==> #[trigger] fallbacks@[k].deep_view() == fallback_of(
                                listed@[k].deep_view(),
                            ),
                {
                    fallbacks.push(ProfileFallback::from_persisted(&listed[index]));
                }
                assert(fallbacks.deep_view() =~= listed.deep_view().map_values(
                    |fallback: PersistedProfileFallbackView| fallback_of(fallback),
                ));
            },
            None => {
                assert(fallbacks.deep_view() =~= Seq::<ProfileFallbackView>::empty());
            },
        }
        let system_prompt_prefix = join_prompt_prefixes(&self.system_prompt_prefixes);
        let template_family = normalize_template_family(&self.template_family);
        let upstream = match self.upstream {
            Some(upstream) => upstream,
            None => String::new(),
        };
        ModelProfile {
            upstream,
            upstream_model: self.upstream_model,
            system_prompt_prefix,
            roles: self.roles,
            template_family,
            upstream_chat_kwargs: self.upstream_chat_kwargs,
            reasoning_effort_map: self.reasoning_effort_map,
            reasoning_effort_default: self.reasoning_effort_default,
            capabilities: self.capabilities,
            reasoning_effort: self.reasoning_effort,
            fallbacks,
            image_analysis: self.image_analysis,
        }
    }
}

fn put_levels(destination: &mut TextMap<Json>, source: &TextMap<Json>)
    ensures
        final(destination).deep_view() == old(destination).deep_view().union_prefer_right(
            source.deep_view(),
        ),
{
    let ghost before = destination.deep_view();
    let ghost given = source.deep_view();
    let count: usize = source.len();
    let ghost listed = source.listed();
    for index in 0..count
        invariant
            count == listed.len(),
            listed == source.listed(),
            given == source.deep_view(),
            forall|key: Seq<char>|
                #[trigger] destination.deep_view().dom().contains(key) ==> {
                    ||| given.dom().contains(key) && destination.deep_view()[key] == given[key]
                    ||| before.dom().contains(key) && destination.deep_view()[key] == before[key]
                },
            forall|key: Seq<char>|
                #[trigger] before.dom().contains(key) ==> destination.deep_view().dom().contains(
                    key,
                ),
            forall|k: int|
                0 <= k < index ==> destination.deep_view().dom().contains(
                    (#[trigger] listed[k]).0,
                ) && destination.deep_view()[listed[k].0] == given[listed[k].0],
    {
        let key = source.key_at(index);
        let value = source.value_at(index);
        destination.insert(key.clone(), value.duplicate());
    }
    proof {
        source.lemma_listed();
        let after = destination.deep_view();
        let expected = before.union_prefer_right(given);
        assert forall|key: Seq<char>| given.dom().contains(key) implies after.dom().contains(key)
            && after[key] == given[key] by {
            let k = choose|k: int| 0 <= k < listed.len() && (#[trigger] listed[k]).0 == key;
            assert(after.dom().contains(listed[k].0));
        }
        assert(after.dom() =~= expected.dom());
        assert(after =~= expected);
    }
}

fn take_over<T: Duplicate>(old: Option<T>, new: &Option<T>) -> (result: Option<T>)
    ensures
        result.deep_view() == over(old.deep_view(), new.deep_view()),
{
    if new.is_some() {
        new.duplicate()
    } else {
        old
    }
}

/// Puts `source` over `destination`.
pub fn merge_resolved_model_profile(
    destination: ResolvedModelProfile,
    source: &ResolvedModelProfile,
) -> (result: ResolvedModelProfile)
    ensures
        result.deep_view() == destination.deep_view().with(source.deep_view()),
{
    let mut prefixes = destination.system_prompt_prefixes;
    let mut more = source.system_prompt_prefixes.duplicate();
    let ghost (first, second) = (prefixes.deep_view(), more.deep_view());
    prefixes.append(&mut more);
    assert(prefixes.deep_view() =~= first + second);
    let mut kwargs = destination.upstream_chat_kwargs;
    merge_json_maps(&mut kwargs, &source.upstream_chat_kwargs);
    let typed = source.reasoning_effort.is_some();
    let by_level = !source.reasoning_effort_map.is_empty()
        || source.reasoning_effort_default.is_some();
    let mut levels = if typed {
        TextMap::new()
    } else {
        destination.reasoning_effort_map
    };
    put_levels(&mut levels, &source.reasoning_effort_map);
    let default = if typed {
        None
    } else {
        destination.reasoning_effort_default
    };
    let reasoning_effort = if typed {
        source.reasoning_effort.duplicate()
    } else if by_level {
        None
    } else {
        destination.reasoning_effort
    };
    ResolvedModelProfile {
        upstream: take_over(destination.upstream, &source.upstream),
        upstream_model: take_over(destination.upstream_model, &source.upstream_model),
        system_prompt_prefixes: prefixes,
        roles: take_over(destination.roles, &source.roles),
        template_family: take_over(destination.template_family, &source.template_family),
        upstream_chat_kwargs: kwargs,
        reasoning_effort_map: levels,
        reasoning_effort_default: take_over(default, &source.reasoning_effort_default),
        capabilities: take_over(destination.capabilities, &source.capabilities),
        reasoning_effort,
        fallbacks: take_over(destination.fallbacks, &source.fallbacks),
        image_analysis: take_over(destination.image_analysis, &source.image_analysis),
    }
}

/// Puts what a profile sets by itself over what it inherits.
pub fn merge_persisted_model_profile(
    destination: ResolvedModelProfile,
    source: &PersistedModelProfile,
) -> (result: Result<ResolvedModelProfile, String>)
    ensures
        outcome(result) == with_own_settings(destination.deep_view(), source.deep_view()),
{
    if source.native_vision.is_some() {
        return Err(
            "`native_vision` was removed; native image passthrough is the default and `image_analysis` enables the redirect (see README \"Migrating\")".to_string(),
        );
    }
    let mut prefixes: Vec<String> = Vec::new();
    match trim_nonempty(&source.system_prompt_prefix) {
        Some(prefix) => {
            let ghost added = prefix@;
            prefixes.push(prefix);
            assert(prefixes.deep_view() =~= seq![added]);
        },
        None => {
            assert(prefixes.deep_view() =~= Seq::<Seq<char>>::empty());
        },
    }
    let own = ResolvedModelProfile {
        upstream: trim_nonempty(&source.upstream),
        upstream_model: trim_nonempty(&source.upstream_model),
        system_prompt_prefixes: prefixes,
        roles: source.roles.duplicate(),
        template_family: trim_nonempty(&source.template_family),
        upstream_chat_kwargs: source.upstream_chat_kwargs.duplicate(),
        reasoning_effort_map: source.reasoning_effort_map.duplicate(),
        reasoning_effort_default: source.reasoning_effort_default.duplicate(),
        capabilities: source.capabilities.duplicate(),
        reasoning_effort: source.reasoning_effort.duplicate(),
        fallbacks: source.fallbacks.duplicate(),
        image_analysis: source.image_analysis.duplicate(),
    };
    Ok(merge_resolved_model_profile(destination, &own))
}

proof fn lemma_inherited_error_stays(
    profile: PersistedModelProfileView,
    templates: Map<Seq<char>, PersistedModelProfileView>,
    stack: Seq<Seq<char>>,
    room: nat,
    count: nat,
    upto: nat,
)
    requires
        upto <= count,
        inherited(profile, templates, stack, room, upto) is Err,
    ensures
        inherited(profile, templates, stack, room, count) == inherited(
            profile,
            templates,
            stack,
            room,
            upto,
        ),
    decreases count,
{
    if upto < count {
        lemma_inherited_error_stays(profile, templates, stack, room, (count - 1) as nat, upto);
    }
}

/// Whether `names` has all the names that can come up.
spec fn names_cover(
    names: Seq<Seq<char>>,
    templates: Map<Seq<char>, PersistedModelProfileView>,
) -> bool {
    forall|key: Seq<char>, k: int|
        templates.dom().contains(key) && 0 <= k < templates[key].extends.len() ==> names.contains(
            trimmed(#[trigger] templates[key].extends[k]),
        )
}

proof fn lemma_stack_fits(names: Seq<Seq<char>>, stack: Seq<Seq<char>>)
    requires
        stack.no_duplicates(),
        forall|k: int| 0 <= k < stack.len() ==> names.contains(#[trigger] stack[k]),
    ensures
        stack.len() <= names.len(),
{
    stack.unique_seq_to_set();
    vstd::seq_lib::seq_to_set_is_finite(names);
    names.lemma_cardinality_of_set();
    assert(stack.to_set().subset_of(names.to_set())) by {
        assert forall|name: Seq<char>| stack.to_set().contains(name) implies names.to_set().contains(
            name,
        ) by {
            let k = choose|k: int| 0 <= k < stack.len() && stack[k] == name;
            assert(names.contains(stack[k]));
        }
    }
    vstd::set_lib::lemma_len_subset(stack.to_set(), names.to_set());
}

proof fn lemma_template_is_listed(
    templates: Map<Seq<char>, PersistedModelProfileView>,
    name: Seq<char>,
)
    requires
        keys_ascending(sorted_entries(templates)),
        entries_map(sorted_entries(templates)) == templates,
    ensures
        value_named(templates, name) matches Some(template) ==> exists|key: Seq<char>|
            #[trigger] templates.dom().contains(key) && templates[key] == template,
{
    if !templates.dom().contains(name) {
        let entries = sorted_entries(templates);
        lemma_template_like_is_entry(entries, name);
        if let Some(template) = first_like(entries, name) {
            let k = choose|k: int| 0 <= k < entries.len() && (#[trigger] entries[k]).1 == template;
            lemma_entries_map_at(entries, k);
            assert(templates.dom().contains(entries[k].0));
        }
    }
}

proof fn lemma_template_like_is_entry(
    entries: Seq<(Seq<char>, PersistedModelProfileView)>,
    name: Seq<char>,
)
    ensures
        first_like(entries, name) matches Some(template) ==> exists|k: int|
            0 <= k < entries.len() && (#[trigger] entries[k]).1 == template,
    decreases entries.len(),
{
    if entries.len() > 0 && lowered(entries[0].0) != lowered(name) {
        let rest = entries.drop_first();
        lemma_template_like_is_entry(rest, name);
        if let Some(template) = first_like(rest, name) {
            let k = choose|k: int| 0 <= k < rest.len() && (#[trigger] rest[k]).1 == template;
            assert(entries[k + 1] == rest[k]);
        }
    } else if entries.len() > 0 {
        assert(entries[0].1 == entries[0].1);
    }
}

/// A profile with everything that it inherits. `stack` are the templates on the way here, all of
/// them different and among `names`, as is every name that can still come up.
fn resolve_profile(
    profile: &PersistedModelProfile,
    templates: &TextMap<PersistedModelProfile>,
    stack: &Vec<String>,
    Ghost(names): Ghost<Seq<Seq<char>>>,
) -> (result: Result<ResolvedModelProfile, String>)
    requires
        names_cover(names, templates.deep_view()),
        forall|k: int|
            0 <= k < profile.deep_view().extends.len() ==> names.contains(
                trimmed(#[trigger] profile.deep_view().extends[k]),
            ),
        stack.deep_view().no_duplicates(),
        forall|k: int| 0 <= k < stack@.len() ==> names.contains(#[trigger] stack.deep_view()[k]),
    ensures
        outcome(result) == whole_profile(
            profile.deep_view(),
            templates.deep_view(),
            stack.deep_view(),
            (names.len() - stack@.len()) as nat,
        ),
    decreases names.len() - stack@.len(),
{
    let ghost given = profile.deep_view();
    let ghost known = templates.deep_view();
    let ghost path = stack.deep_view();
    let ghost room = (names.len() - stack@.len()) as nat;
    let _ = templates.count();
    proof {
        templates.lemma_listed();
        lemma_stack_fits(names, path);
    }
    let mut resolved = ResolvedModelProfile::empty();
    for index in 0..profile.extends.len()
        invariant
            given == profile.deep_view(),
            known == templates.deep_view(),
            path == stack.deep_view(),
            room == names.len() - stack@.len(),
            keys_ascending(sorted_entries(known)),
            entries_map(sorted_entries(known)) == known,
            names_cover(names, known),
            forall|k: int|
                0 <= k < given.extends.len() ==> names.contains(trimmed(#[trigger] given.extends[k])),
            path.no_duplicates(),
            forall|k: int| 0 <= k < path.len() ==> names.contains(#[trigger] path[k]),
            inherited(given, known, path, room, index as nat) == Ok::<
                ResolvedModelProfileView,
                Seq<char>,
            >(resolved.deep_view()),
    {
        assert(given.extends[index as int] == profile.extends@[index as int]@);
        let name = profile.extends[index].as_str().trim();
        let ghost next = (index + 1) as nat;
        if !name.is_empty() {
            let mut on_the_way = false;
            for at in 0..stack.len()
                invariant
                    path == stack.deep_view(),
                    on_the_way <==> exists|k: int| 0 <= k < at && #[trigger] path[k] == name@,
            {
                assert(path[at as int] == stack@[at as int]@);
                if same_text(stack[at].as_str(), name) {
                    on_the_way = true;
                }
            }
            assert(on_the_way <==> path.contains(name@));
            let mut deeper = stack.duplicate();
            deeper.push(name.to_string());
            assert(deeper.deep_view() =~= path.push(name@));
            if on_the_way {
                let mut message = "template cycle: ".to_string();
                message.push_str(join(&deeper, " -> ").as_str());
                proof {
                    lemma_inherited_error_stays(
                        given,
                        known,
                        path,
                        room,
                        given.extends.len(),
                        next,
                    );
                }
                return Err(message);
            }
            proof {
                let longer = path.push(name@);
                assert forall|k: int| 0 <= k < longer.len() implies names.contains(
                    #[trigger] longer[k],
                ) by {
                    if k < path.len() {
                        assert(longer[k] == path[k]);
                    }
                }
                assert(longer.no_duplicates()) by {
                    assert forall|i: int, j: int|
                        0 <= i < longer.len() && 0 <= j < longer.len() && i != j implies longer[i]
                        != longer[j] by {
                        if i < path.len() && j < path.len() {
                            assert(path[i] != path[j]);
                        } else if i < path.len() {
                            assert(path[i] == longer[i]);
                        } else {
                            assert(path[j] == longer[j]);
                        }
                    }
                }
                lemma_stack_fits(names, longer);
                lemma_template_is_listed(known, name@);
            }
            match templates.find(name) {
                None => {
                    let mut message = "unknown template ".to_string();
                    message.push_str(quoted_text(name).as_str());
                    proof {
                        lemma_inherited_error_stays(
                            given,
                            known,
                            path,
                            room,
                            given.extends.len(),
                            next,
                        );
                    }
                    return Err(message);
                },
                Some(template) => {
                    proof {
                        let key = choose|key: Seq<char>|
                            #[trigger] known.dom().contains(key) && known[key]
                                == template.deep_view();
                        assert forall|k: int| 0 <= k < template.deep_view().extends.len() implies names.contains(
                            trimmed(#[trigger] template.deep_view().extends[k]),
                        ) by {
                            assert(names.contains(trimmed(known[key].extends[k])));
                        }
                    }
                    match resolve_profile(template, templates, &deeper, Ghost(names)) {
                        Err(message) => {
                            proof {
                                lemma_inherited_error_stays(
                                    given,
                                    known,
                                    path,
                                    room,
                                    given.extends.len(),
                                    next,
                                );
                            }
                            return Err(message);
                        },
                        Ok(inner) => {
                            resolved = merge_resolved_model_profile(resolved, &inner);
                        },
                    }
                },
            }
        }
    }
    merge_persisted_model_profile(resolved, profile)
}

proof fn lemma_extended_names(
    entries: Seq<(Seq<char>, PersistedModelProfileView)>,
    count: int,
    at: int,
    k: int,
)
    requires
        0 <= at < count <= entries.len(),
        0 <= k < entries[at].1.extends.len(),
    ensures
        extended_names(entries, count).contains(trimmed(entries[at].1.extends[k])),
    decreases count,
{
    let before = extended_names(entries, count - 1);
    let last = names_extended(entries[count - 1].1);
    let all = extended_names(entries, count);
    if at == count - 1 {
        assert(last[k] == trimmed(entries[at].1.extends[k]));
        assert(all[before.len() + k] == last[k]);
    } else {
        lemma_extended_names(entries, count - 1, at, k);
        let j = choose|j: int|
            0 <= j < before.len() && before[j] == trimmed(entries[at].1.extends[k]);
        assert(all[j] == before[j]);
    }
}

/// A profile with everything that it inherits.
pub fn resolve_persisted_model_profile(
    profile: &PersistedModelProfile,
    templates: &TextMap<PersistedModelProfile>,
) -> (result: Result<ResolvedModelProfile, String>)
    ensures
        outcome(result) == complete_profile(profile.deep_view(), templates.deep_view()),
{
    let ghost given = profile.deep_view();
    let ghost known = templates.deep_view();
    let ghost names = all_names(given, known);
    let _ = templates.count();
    let stack: Vec<String> = Vec::new();
    proof {
        templates.lemma_listed();
        let entries = sorted_entries(known);
        let own = names_extended(given);
        let others = extended_names(entries, entries.len() as int);
        assert forall|k: int| 0 <= k < given.extends.len() implies names.contains(
            trimmed(#[trigger] given.extends[k]),
        ) by {
            assert(names[k] == own[k]);
        }
        assert forall|key: Seq<char>, k: int|
            known.dom().contains(key) && 0 <= k < known[key].extends.len() implies names.contains(
            trimmed(#[trigger] known[key].extends[k]),
        ) by {
            let at = choose|i: int| 0 <= i < entries.len() && (#[trigger] entries[i]).0 == key;
            lemma_entries_map_at(entries, at);
            lemma_extended_names(entries, entries.len() as int, at, k);
            let j = choose|j: int|
                0 <= j < others.len() && others[j] == trimmed(entries[at].1.extends[k]);
            assert(names[own.len() + j] == others[j]);
        }
        assert(stack.deep_view() =~= Seq::<Seq<char>>::empty());
    }
    resolve_profile(profile, templates, &stack, Ghost(names))
}

// ---------------------------------------------------------------------------------------------
// All profiles
// ---------------------------------------------------------------------------------------------

/// The profile under `name`, ready for use, or why it is not.
pub open spec fn compiled_profile(
    name: Seq<char>,
    profile: PersistedModelProfileView,
    templates: Map<Seq<char>, PersistedModelProfileView>,
) -> Result<CompiledProfileView, Seq<char>> {
    match complete_profile(profile, templates) {
        Err(message) => Err(message),
        Ok(resolved) => {
            let finished = resolved.finished();
            let role_problem = match finished.roles {
                Some(roles) => roles.problem(),
                None => None,
            };
            if role_problem is Some {
                Err(role_problem->0)
            } else if finished.reasoning_effort is Some && (finished.reasoning_effort_map
                != Map::<Seq<char>, JsonView>::empty()
                || finished.reasoning_effort_default is Some) {
                Err(
                    "`reasoning_effort` cannot be combined with `reasoning_effort_map` or `reasoning_effort_default`"@,
                )
            } else {
                match key_glob(name) {
                    Err(message) => Err(message),
                    Ok(glob) => Ok(CompiledProfileView { key: name, glob, profile: finished }),
                }
            }
        },
    }
}

/// The first `count` profiles, ready for use, or the error of the first that has one. Profiles
/// without a name are passed over.
pub open spec fn compiled_profiles(
    profiles: Seq<(Seq<char>, PersistedModelProfileView)>,
    templates: Map<Seq<char>, PersistedModelProfileView>,
    count: int,
) -> Result<Seq<CompiledProfileView>, Seq<char>>
    decreases count,
{
    if count <= 0 {
        Ok(Seq::empty())
    } else {
        let name = trimmed(profiles[count - 1].0);
        match compiled_profiles(profiles, templates, count - 1) {
            Err(message) => Err(message),
            Ok(before) => if name.len() == 0 {
                Ok(before)
            } else {
                match compiled_profile(name, profiles[count - 1].1, templates) {
                    Err(message) => Err("model_profiles["@ + name + "]: "@ + message),
                    Ok(compiled) => Ok(before.push(compiled)),
                }
            },
        }
    }
}

proof fn lemma_compiled_error_stays(
    profiles: Seq<(Seq<char>, PersistedModelProfileView)>,
    templates: Map<Seq<char>, PersistedModelProfileView>,
    count: int,
    upto: int,
)
    requires
        0 <= upto <= count,
        compiled_profiles(profiles, templates, upto) is Err,
    ensures
        compiled_profiles(profiles, templates, count) == compiled_profiles(
            profiles,
            templates,
            upto,
        ),
    decreases count,
{
    if upto < count {
        lemma_compiled_error_stays(profiles, templates, count - 1, upto);
    }
}

fn compile_profile(
    name: &str,
    profile: &PersistedModelProfile,
    templates: &TextMap<PersistedModelProfile>,
) -> (result: Result<CompiledProfile, String>)
    ensures
        outcome(result) == compiled_profile(name@, profile.deep_view(), templates.deep_view()),
{
    let resolved = match resolve_persisted_model_profile(profile, templates) {
        Ok(resolved) => resolved,
        Err(message) => {
            return Err(message);
        },
    };
    let profile = resolved.into_model_profile();
    if let Some(roles) = &profile.roles {
        match roles.validate() {
            Ok(()) => {},
            Err(message) => {
                return Err(message);
            },
        }
    }
    if profile.reasoning_effort.is_some() && (!profile.reasoning_effort_map.is_empty()
        || profile.reasoning_effort_default.is_some()) {
        return Err(
            "`reasoning_effort` cannot be combined with `reasoning_effort_map` or `reasoning_effort_default`".to_string(),
        );
    }
    match compile_model_glob(name) {
        Ok(glob) => Ok(CompiledProfile { key: name.to_string(), glob, profile }),
        Err(message) => Err(message),
    }
}

/// `model_profiles[name]: message`.
fn profile_message(name: &str, message: &str) -> (result: String)
    ensures
        result@ == "model_profiles["@ + name@ + "]: "@ + message@,
{
    let mut result = "model_profiles[".to_string();
    result.push_str(name);
    result.push_str("]: ");
    result.push_str(message);
    result
}

/// The profiles, ready for use, in the order of their declaration.
pub fn resolve_model_profiles(
    profiles: &OrderedModelProfiles,
    templates: &TextMap<PersistedModelProfile>,
) -> (result: Result<Vec<CompiledProfile>, String>)
    ensures
        outcome(result) == compiled_profiles(
            profiles.deep_view(),
            templates.deep_view(),
            profiles.deep_view().len() as int,
        ),
{
    let ghost given = profiles.0.deep_view();
    let ghost known = templates.deep_view();
    let mut resolved: Vec<CompiledProfile> = Vec::new();
    assert(resolved.deep_view() =~= Seq::<CompiledProfileView>::empty());
    for index in 0..profiles.0.len()
        invariant
            given == profiles.0.deep_view(),
            known == templates.deep_view(),
            compiled_profiles(given, known, index as int) == Ok::<
                Seq<CompiledProfileView>,
                Seq<char>,
            >(resolved.deep_view()),
    {
        let ghost before = resolved.deep_view();
        assert(given[index as int] == profiles.0@[index as int].deep_view());
        let name = profiles.0[index].0.as_str().trim();
        if !name.is_empty() {
            match compile_profile(name, &profiles.0[index].1, templates) {
                Ok(compiled) => {
                    let ghost added = compiled.deep_view();
                    resolved.push(compiled);
                    assert(resolved.deep_view() =~= before.push(added));
                },
                Err(message) => {
                    proof {
                        lemma_compiled_error_stays(given, known, given.len() as int, index + 1);
                    }
                    return Err(profile_message(name, message.as_str()));
                },
            }
        }
    }
    Ok(resolved)
}

} // verus!
