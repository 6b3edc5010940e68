//! Which profile serves a request.
use vstd::prelude::*;

use crate::text::{same_text, trimmed};

use super::capabilities::{CapabilitiesConfig, CapabilitiesConfigView};
use super::glob::regex_matches;
use super::profile::{
    join_prompt_prefixes, joined_prefixes, names_agree, same_name, CompiledProfile,
    CompiledProfileView, ModelProfile, ModelProfileView,
};
use super::roles::RolesConfig;
use super::upstream::{UpstreamConfig, UpstreamConfigView};
use super::{Config, ConfigView};

verus! {

/// The profile that serves a request, and the model that it is served by.
#[derive(Debug)]
pub struct ResolvedRoute<'a> {
    pub profile_key: &'a str,
    pub profile: &'a ModelProfile,
    pub served_model: String,
    pub matched_glob: bool,
}

/// The model of [`ResolvedRoute`].
pub struct ResolvedRouteView {
    pub profile_key: Seq<char>,
    pub profile: ModelProfileView,
    pub served_model: Seq<char>,
    pub matched_glob: bool,
}

impl<'a> DeepView for ResolvedRoute<'a> {
    type V = ResolvedRouteView;

    open spec fn deep_view(&self) -> ResolvedRouteView {
        ResolvedRouteView {
            profile_key: self.profile_key@,
            profile: self.profile.deep_view(),
            served_model: self.served_model@,
            matched_glob: self.matched_glob,
        }
    }
}

/// The place of the first item of which `holds` is true, or the number of items.
pub open spec fn first_place<T>(items: Seq<T>, holds: spec_fn(T) -> bool) -> nat
    decreases items.len(),
{
    if items.len() == 0 || holds(items[0]) {
        0
    } else {
        1 + first_place(items.drop_first(), holds)
    }
}

/// `place` is where the first item stands of which `holds` is true.
pub proof fn lemma_first_place<T>(items: Seq<T>, holds: spec_fn(T) -> bool, place: int)
    requires
        0 <= place <= items.len(),
        forall|k: int| 0 <= k < place ==> !holds(#[trigger] items[k]),
        place < items.len() ==> holds(items[place]),
    ensures
        first_place(items, holds) == place,
    decreases items.len(),
{
    if place > 0 {
        assert(!holds(items[0]));
        let rest = items.drop_first();
        assert forall|k: int| 0 <= k < place - 1 implies !holds(#[trigger] rest[k]) by {
            assert(rest[k] == items[k + 1]);
        }
        lemma_first_place(rest, holds, place - 1);
    }
}

/// What holds of the first place: it holds there, and nowhere before.
pub proof fn lemma_first_place_holds<T>(items: Seq<T>, holds: spec_fn(T) -> bool)
    ensures
        first_place(items, holds) <= items.len(),
        first_place(items, holds) < items.len() ==> holds(
            items[first_place(items, holds) as int],
        ),
        forall|k: int| 0 <= k < first_place(items, holds) ==> !holds(#[trigger] items[k]),
    decreases items.len(),
{
    if items.len() > 0 && !holds(items[0]) {
        let rest = items.drop_first();
        lemma_first_place_holds(rest, holds);
        assert forall|k: int| 0 <= k < first_place(items, holds) implies !holds(
            #[trigger] items[k],
        ) by {
            if k > 0 {
                assert(rest[k - 1] == items[k]);
            }
        }
    }
}

/// Whether a profile is declared for exactly this name.
pub open spec fn is_spelled(name: Seq<char>) -> spec_fn(CompiledProfileView) -> bool {
    |compiled: CompiledProfileView| compiled.glob is None && trimmed(compiled.key) == trimmed(name)
}

/// Whether a profile is declared for this name but for the case of its letters.
pub open spec fn is_named(name: Seq<char>) -> spec_fn(CompiledProfileView) -> bool {
    |compiled: CompiledProfileView| compiled.glob is None && same_name(compiled.key, name)
}

/// The place of the profile with the given name: as it is spelled, or else but for the case of its
/// letters.
pub open spec fn named_place(profiles: Seq<CompiledProfileView>, name: Seq<char>) -> nat {
    if first_place(profiles, is_spelled(name)) < profiles.len() {
        first_place(profiles, is_spelled(name))
    } else {
        first_place(profiles, is_named(name))
    }
}

/// The place of the first pattern that matched, or the number of profiles. `hits` tells for each
/// profile whether it has a pattern and the pattern matched.
pub open spec fn pattern_place(hits: Seq<bool>) -> nat {
    first_place(hits, |hit: bool| hit)
}

/// For each profile, whether it has a pattern that matches the name.
pub open spec fn pattern_hits(profiles: Seq<CompiledProfileView>, name: Seq<char>) -> Seq<bool> {
    Seq::new(
        profiles.len(),
        |k: int|
            profiles[k].glob matches Some(source) && regex_matches(source, trimmed(name)),
    )
}

/// The route to a profile. `passed` is the model that is served where the profile names none.
pub open spec fn route_to(
    compiled: CompiledProfileView,
    passed: Seq<char>,
    matched_glob: bool,
) -> ResolvedRouteView {
    ResolvedRouteView {
        profile_key: compiled.key,
        profile: compiled.profile,
        served_model: match compiled.profile.upstream_model {
            Some(model) => model,
            None => passed,
        },
        matched_glob,
    }
}

/// The route of a request for `model`.
pub open spec fn routed(
    profiles: Seq<CompiledProfileView>,
    hits: Seq<bool>,
    model: Seq<char>,
) -> Option<ResolvedRouteView> {
    let name = trimmed(model);
    let exact = named_place(profiles, model) as int;
    let pattern = pattern_place(hits) as int;
    if name.len() > 0 && exact < profiles.len() {
        Some(route_to(profiles[exact], trimmed(profiles[exact].key), false))
    } else if pattern < profiles.len() && (name.len() > 0
        || profiles[pattern].profile.upstream_model is Some) {
        Some(route_to(profiles[pattern], name, true))
    } else {
        None
    }
}

fn served_by(profile: &ModelProfile, passed: &str) -> (result: String)
    ensures
        result@ == match profile.deep_view().upstream_model {
            Some(model) => model,
            None => passed@,
        },
{
    match &profile.upstream_model {
        Some(model) => model.clone(),
        None => passed.to_string(),
    }
}

fn find_spelled(profiles: &Vec<CompiledProfile>, name: &str) -> (result: usize)
    ensures
        result == first_place(profiles.deep_view(), is_spelled(name@)),
        result <= profiles@.len(),
{
    let ghost models = profiles.deep_view();
    let mut place: usize = 0;
    while place < profiles.len() && !(profiles[place].glob.is_none() && same_text(
        profiles[place].key.as_str().trim(),
        name.trim(),
    ))
        invariant
            models == profiles.deep_view(),
            place <= profiles@.len(),
            forall|k: int| 0 <= k < place ==> !is_spelled(name@)(#[trigger] models[k]),
        decreases profiles.len() - place,
    {
        assert(models[place as int] == profiles@[place as int].deep_view());
        place = place + 1;
    }
    proof {
        if place < profiles@.len() {
            assert(models[place as int] == profiles@[place as int].deep_view());
        }
        lemma_first_place(models, is_spelled(name@), place as int);
    }
    place
}

/// The place of the first profile that is declared for the name but for the case of its letters, or
/// the number of profiles.
pub fn find_named(profiles: &Vec<CompiledProfile>, name: &str) -> (result: usize)
    ensures
        result == first_place(profiles.deep_view(), is_named(name@)),
        result <= profiles@.len(),
{
    let ghost models = profiles.deep_view();
    let mut place: usize = 0;
    while place < profiles.len() && !(profiles[place].glob.is_none() && names_agree(
        profiles[place].key.as_str(),
        name,
    ))
        invariant
            models == profiles.deep_view(),
            place <= profiles@.len(),
            forall|k: int| 0 <= k < place ==> !is_named(name@)(#[trigger] models[k]),
        decreases profiles.len() - place,
    {
        assert(models[place as int] == profiles@[place as int].deep_view());
        place = place + 1;
    }
    proof {
        if place < profiles@.len() {
            assert(models[place as int] == profiles@[place as int].deep_view());
        }
        lemma_first_place(models, is_named(name@), place as int);
    }
    place
}

fn first_hit(hits: &Vec<bool>) -> (result: usize)
    ensures
        result == pattern_place(hits@),
        result <= hits@.len(),
{
    let mut place: usize = 0;
    while place < hits.len() && !hits[place]
        invariant
            place <= hits@.len(),
            forall|k: int| 0 <= k < place ==> !#[trigger] hits@[k],
        decreases hits.len() - place,
    {
        place = place + 1;
    }
    proof {
        lemma_first_place(hits@, |hit: bool| hit, place as int);
    }
    place
}

/// The route of a request for `model`, with what the patterns of the profiles made of it: `hits`
/// tells for each profile whether it has a pattern that matches.
pub fn select_route<'a>(profiles: &'a Vec<CompiledProfile>, hits: &Vec<bool>, model: &str) -> (result:
    Option<ResolvedRoute<'a>>)
    requires
        hits@.len() == profiles@.len(),
    ensures
        result.deep_view() == routed(profiles.deep_view(), hits@, model@),
{
    let ghost models = profiles.deep_view();
    let name = model.trim();
    if !name.is_empty() {
        let spelled = find_spelled(profiles, model);
        let exact: usize = if spelled < profiles.len() {
            spelled
        } else {
            find_named(profiles, model)
        };
        if exact < profiles.len() {
            let compiled = &profiles[exact];
            assert(models[exact as int] == compiled.deep_view());
            return Some(
                ResolvedRoute {
                    profile_key: compiled.key.as_str(),
                    profile: &compiled.profile,
                    served_model: served_by(&compiled.profile, compiled.key.as_str().trim()),
                    matched_glob: false,
                },
            );
        }
    }
    let pattern = first_hit(hits);
    if pattern < profiles.len() {
        let compiled = &profiles[pattern];
        assert(models[pattern as int] == compiled.deep_view());
        if !name.is_empty() || compiled.profile.upstream_model.is_some() {
            return Some(
                ResolvedRoute {
                    profile_key: compiled.key.as_str(),
                    profile: &compiled.profile,
                    served_model: served_by(&compiled.profile, name),
                    matched_glob: true,
                },
            );
        }
    }
    None
}

fn hits_of(profiles: &Vec<CompiledProfile>, model: &str) -> (result: Vec<bool>)
    ensures
        result@ == pattern_hits(profiles.deep_view(), model@),
{
    let ghost models = profiles.deep_view();
    let ghost expected = pattern_hits(models, model@);
    let name = model.trim();
    let mut hits: Vec<bool> = Vec::new();
    for index in 0..profiles.len()
        invariant
            models == profiles.deep_view(),
            expected == pattern_hits(models, model@),
            name@ == trimmed(model@),
            hits@ == expected.take(index as int),
    {
        assert(models[index as int] == profiles@[index as int].deep_view());
        let hit = match &profiles[index].glob {
            Some(glob) => glob.is_match(name),
            None => false,
        };
        hits.push(hit);
        assert(hits@ =~= expected.take(index + 1));
    }
    assert(expected.take(expected.len() as int) =~= expected);
    hits
}

impl ConfigView {
    /// The route of a request for `model`.
    pub open spec fn route(self, model: Seq<char>) -> Option<ResolvedRouteView> {
        routed(self.model_profiles, pattern_hits(self.model_profiles, model), model)
    }

    /// What is told in front of the conversation of a request for `model`: the words for every model,
    /// and those of the profile that serves it.
    pub open spec fn prompt_prefix(self, model: Seq<char>) -> Option<Seq<char>> {
        let own = match self.system_prompt_prefix {
            Some(prefix) => seq![prefix],
            None => Seq::empty(),
        };
        let profile = match self.route(model) {
            Some(route) => match route.profile.system_prompt_prefix {
                Some(prefix) => seq![prefix],
                None => Seq::empty(),
            },
            None => Seq::empty(),
        };
        joined_prefixes(own + profile)
    }
}

/// The keys of the first `count` profiles that are names.
pub open spec fn exact_keys(profiles: Seq<CompiledProfileView>, count: int) -> Seq<Seq<char>>
    decreases count,
{
    if count <= 0 {
        Seq::empty()
    } else if profiles[count - 1].glob is None {
        exact_keys(profiles, count - 1).push(profiles[count - 1].key)
    } else {
        exact_keys(profiles, count - 1)
    }
}

/// Whether an upstream has the given name.
pub open spec fn is_upstream(name: Seq<char>) -> spec_fn(UpstreamConfigView) -> bool {
    |upstream: UpstreamConfigView| same_name(upstream.name, name)
}

/// Whether a profile has exactly this key.
pub open spec fn has_key(key: Seq<char>) -> spec_fn(CompiledProfileView) -> bool {
    |compiled: CompiledProfileView| trimmed(compiled.key) == trimmed(key)
}

/// Whether a profile has this key but for the case of its letters.
pub open spec fn has_key_like(key: Seq<char>) -> spec_fn(CompiledProfileView) -> bool {
    |compiled: CompiledProfileView| same_name(compiled.key, key)
}

/// The place of the profile with the given key, be it a name or a pattern.
pub open spec fn key_place(profiles: Seq<CompiledProfileView>, key: Seq<char>) -> nat {
    if first_place(profiles, has_key(key)) < profiles.len() {
        first_place(profiles, has_key(key))
    } else {
        first_place(profiles, has_key_like(key))
    }
}

/// The profile with the given key, be it a name or a pattern.
pub open spec fn keyed_profile(profiles: Seq<CompiledProfileView>, key: Seq<char>) -> Option<
    ModelProfileView,
> {
    if key_place(profiles, key) < profiles.len() {
        Some(profiles[key_place(profiles, key) as int].profile)
    } else {
        None
    }
}

/// Whether a profile is served by the given model of its upstream.
pub open spec fn is_served_by(id: Seq<char>) -> spec_fn(CompiledProfileView) -> bool {
    |compiled: CompiledProfileView|
        compiled.profile.upstream_model matches Some(model) && crate::text::lowered(model)
            == crate::text::lowered(id)
}

/// The capabilities that are advertised for a model of an upstream: those of the profile under its
/// name, else of the first profile that it serves, else of the profile for everything.
pub open spec fn advertised(profiles: Seq<CompiledProfileView>, id: Seq<char>) -> Option<
    CapabilitiesConfigView,
> {
    let served = first_place(profiles, is_served_by(id)) as int;
    match keyed_profile(profiles, id) {
        Some(profile) => profile.capabilities,
        None => if served < profiles.len() {
            profiles[served].profile.capabilities
        } else {
            match keyed_profile(profiles, "*"@) {
                Some(profile) => profile.capabilities,
                None => None,
            }
        },
    }
}

fn find_key(profiles: &Vec<CompiledProfile>, key: &str) -> (result: usize)
    ensures
        result == key_place(profiles.deep_view(), key@),
        result <= profiles@.len(),
{
    let ghost models = profiles.deep_view();
    let mut place: usize = 0;
    while place < profiles.len() && !same_text(profiles[place].key.as_str().trim(), key.trim())
        invariant
            models == profiles.deep_view(),
            place <= profiles@.len(),
            forall|k: int| 0 <= k < place ==> !has_key(key@)(#[trigger] models[k]),
        decreases profiles.len() - place,
    {
        assert(models[place as int] == profiles@[place as int].deep_view());
        place = place + 1;
    }
    proof {
        if place < profiles@.len() {
            assert(models[place as int] == profiles@[place as int].deep_view());
        }
        lemma_first_place(models, has_key(key@), place as int);
    }
    if place < profiles.len() {
        return place;
    }
    let mut like: usize = 0;
    while like < profiles.len() && !names_agree(profiles[like].key.as_str(), key)
        invariant
            models == profiles.deep_view(),
            like <= profiles@.len(),
            forall|k: int| 0 <= k < like ==> !has_key_like(key@)(#[trigger] models[k]),
        decreases profiles.len() - like,
    {
        assert(models[like as int] == profiles@[like as int].deep_view());
        like = like + 1;
    }
    proof {
        if like < profiles@.len() {
            assert(models[like as int] == profiles@[like as int].deep_view());
        }
        lemma_first_place(models, has_key_like(key@), like as int);
    }
    like
}

fn find_served(profiles: &Vec<CompiledProfile>, id: &str) -> (result: usize)
    ensures
        result == first_place(profiles.deep_view(), is_served_by(id@)),
        result <= profiles@.len(),
{
    let ghost models = profiles.deep_view();
    for place in 0..profiles.len()
        invariant
            models == profiles.deep_view(),
            forall|k: int| 0 <= k < place ==> !is_served_by(id@)(#[trigger] models[k]),
    {
        assert(models[place as int] == profiles@[place as int].deep_view());
        if let Some(model) = &profiles[place].profile.upstream_model {
            if model.as_str().eq_ignore_ascii_case(id) {
                proof {
                    lemma_first_place(models, is_served_by(id@), place as int);
                }
                return place;
            }
        }
    }
    proof {
        lemma_first_place(models, is_served_by(id@), models.len() as int);
    }
    profiles.len()
}

impl Config {
    /// The route of a request for `request_model`: to the profile with that name, or else to the
    /// first whose pattern matches it.
    pub fn resolve_route(&self, request_model: &str) -> (result: Option<ResolvedRoute<'_>>)
        ensures
            result.deep_view() == self.deep_view().route(request_model@),
    {
        let hits = hits_of(&self.model_profiles, request_model);
        select_route(&self.model_profiles, &hits, request_model)
    }

    /// The model that serves a request for `request_model`.
    pub fn resolve_upstream_model(&self, request_model: &str) -> (result: String)
        ensures
            result@ == match self.deep_view().route(request_model@) {
                Some(route) => route.served_model,
                None => trimmed(request_model@),
            },
    {
        match self.resolve_route(request_model) {
            Some(route) => route.served_model,
            None => request_model.trim().to_string(),
        }
    }

    /// The keys of the profiles that are names, in the order of their declaration.
    pub fn exact_profile_keys(&self) -> (result: Vec<String>)
        ensures
            result.deep_view() == exact_keys(
                self.deep_view().model_profiles,
                self.deep_view().model_profiles.len() as int,
            ),
    {
        let ghost models = self.model_profiles.deep_view();
        let mut keys: Vec<String> = Vec::new();
        assert(keys.deep_view() =~= Seq::<Seq<char>>::empty());
        for index in 0..self.model_profiles.len()
            invariant
                models == self.model_profiles.deep_view(),
                keys.deep_view() == exact_keys(models, index as int),
        {
            let ghost before = keys.deep_view();
            let compiled = &self.model_profiles[index];
            assert(models[index as int] == compiled.deep_view());
            if compiled.glob.is_none() {
                keys.push(compiled.key.clone());
                assert(keys.deep_view() =~= before.push(compiled.key@));
            }
        }
        keys
    }

    /// The upstream with the given name.
    pub fn upstream_by_name(&self, name: &str) -> (result: Option<&UpstreamConfig>)
        ensures
            ({
                let upstreams = self.deep_view().upstreams;
                let place = first_place(upstreams, is_upstream(name@)) as int;
                result.deep_view() == if place < upstreams.len() {
                    Some(upstreams[place])
                } else {
                    None
                }
            }),
    {
        let ghost models = self.upstreams.deep_view();
        for place in 0..self.upstreams.len()
            invariant
                models == self.upstreams.deep_view(),
                forall|k: int| 0 <= k < place ==> !is_upstream(name@)(#[trigger] models[k]),
        {
            assert(models[place as int] == self.upstreams@[place as int].deep_view());
            if names_agree(self.upstreams[place].name.as_str(), name) {
                proof {
                    lemma_first_place(models, is_upstream(name@), place as int);
                }
                return Some(&self.upstreams[place]);
            }
        }
        proof {
            lemma_first_place(models, is_upstream(name@), models.len() as int);
        }
        None
    }

    /// What stands in front of the system prompt of a request for `request_model`.
    pub fn resolve_system_prompt_prefix(&self, request_model: &str) -> (result: Option<String>)
        ensures
            result.deep_view() == ({
                let own = match self.deep_view().system_prompt_prefix {
                    Some(prefix) => seq![prefix],
                    None => Seq::empty(),
                };
                let profile = match self.deep_view().route(request_model@) {
                    Some(route) => match route.profile.system_prompt_prefix {
                        Some(prefix) => seq![prefix],
                        None => Seq::empty(),
                    },
                    None => Seq::empty(),
                };
                joined_prefixes(own + profile)
            }),
            result.deep_view() == self.deep_view().prompt_prefix(request_model@),
    {
        let mut prefixes: Vec<String> = Vec::new();
        let ghost mut expected = Seq::<Seq<char>>::empty();
        assert(prefixes.deep_view() =~= expected);
        if let Some(prefix) = &self.system_prompt_prefix {
            prefixes.push(prefix.clone());
            proof {
                expected = seq![prefix@];
                assert(prefixes.deep_view() =~= expected);
            }
        }
        if let Some(route) = self.resolve_route(request_model) {
            if let Some(prefix) = &route.profile.system_prompt_prefix {
                prefixes.push(prefix.clone());
                proof {
                    expected = expected + seq![prefix@];
                }
            }
        }
        assert(expected + Seq::<Seq<char>>::empty() =~= expected);
        assert(Seq::<Seq<char>>::empty() + expected =~= expected);
        assert(prefixes.deep_view() =~= expected);
        join_prompt_prefixes(&prefixes)
    }

    /// The capabilities that are advertised for a model of an upstream.
    pub fn resolve_capabilities_for_upstream(&self, id: &str) -> (result: Option<
        &CapabilitiesConfig,
    >)
        ensures
            result.deep_view() == advertised(self.deep_view().model_profiles, id@),
    {
        let ghost models = self.model_profiles.deep_view();
        if let Some(profile) = self.model_profile(id) {
            return profile.capabilities.as_ref();
        }
        let served = find_served(&self.model_profiles, id);
        if served < self.model_profiles.len() {
            assert(models[served as int] == self.model_profiles@[served as int].deep_view());
            return self.model_profiles[served].profile.capabilities.as_ref();
        }
        match self.model_profile("*") {
            Some(profile) => profile.capabilities.as_ref(),
            None => None,
        }
    }

    /// What happens to the roles of a request for `request_model`.
    pub fn resolve_roles_config(&self, request_model: &str) -> (result: Option<&RolesConfig>)
        ensures
            result.deep_view() == match self.deep_view().route(request_model@) {
                Some(route) => route.profile.roles,
                None => None,
            },
    {
        match self.resolve_route(request_model) {
            Some(route) => route.profile.roles.as_ref(),
            None => None,
        }
    }

    /// The profile with the given key, be it a name or a pattern.
    pub fn model_profile(&self, request_model: &str) -> (result: Option<&ModelProfile>)
        ensures
            result.deep_view() == keyed_profile(self.deep_view().model_profiles, request_model@),
    {
        let ghost models = self.model_profiles.deep_view();
        let place = find_key(&self.model_profiles, request_model);
        if place < self.model_profiles.len() {
            assert(models[place as int] == self.model_profiles@[place as int].deep_view());
            Some(&self.model_profiles[place].profile)
        } else {
            None
        }
    }
}

// ---------------------------------------------------------------------------------------------
// Laws
// ---------------------------------------------------------------------------------------------

/// A profile that is declared for the name of a model serves it, whatever patterns are declared
/// before it; among names that differ only in case, the one that is spelled the same.
pub proof fn law_names_come_before_patterns(
    profiles: Seq<CompiledProfileView>,
    hits: Seq<bool>,
    model: Seq<char>,
    at: int,
)
    requires
        hits.len() == profiles.len(),
        trimmed(model).len() > 0,
        0 <= at < profiles.len(),
        profiles[at].glob is None,
        same_name(profiles[at].key, model),
    ensures
        routed(profiles, hits, model) matches Some(route) && {
            &&& !route.matched_glob
            &&& same_name(route.profile_key, model)
            &&& trimmed(profiles[at].key) == trimmed(model) ==> trimmed(route.profile_key)
                == trimmed(model)
        },
{
    lemma_first_place_holds(profiles, is_spelled(model));
    lemma_first_place_holds(profiles, is_named(model));
    assert(is_named(model)(profiles[at]));
    if trimmed(profiles[at].key) == trimmed(model) {
        assert(is_spelled(model)(profiles[at]));
    }
}

/// A request that no name serves goes to the first declared pattern that matches it.
pub proof fn law_first_pattern_wins(
    profiles: Seq<CompiledProfileView>,
    hits: Seq<bool>,
    model: Seq<char>,
    at: int,
)
    requires
        hits.len() == profiles.len(),
        trimmed(model).len() > 0,
        forall|k: int|
            0 <= k < profiles.len() ==> !((#[trigger] profiles[k]).glob is None && same_name(
                profiles[k].key,
                model,
            )),
        0 <= at < profiles.len(),
        hits[at],
        forall|k: int| 0 <= k < at ==> !#[trigger] hits[k],
    ensures
        routed(profiles, hits, model) == Some(route_to(profiles[at], trimmed(model), true)),
{
    lemma_first_place_holds(profiles, is_spelled(model));
    lemma_first_place_holds(profiles, is_named(model));
    lemma_first_place(hits, |hit: bool| hit, at);
}

/// A request that no name serves and no pattern matches is not served.
pub proof fn law_unmatched_models_have_no_route(
    profiles: Seq<CompiledProfileView>,
    hits: Seq<bool>,
    model: Seq<char>,
)
    requires
        hits.len() == profiles.len(),
        forall|k: int|
            0 <= k < profiles.len() ==> !((#[trigger] profiles[k]).glob is None && same_name(
                profiles[k].key,
                model,
            )),
        forall|k: int| 0 <= k < hits.len() ==> !#[trigger] hits[k],
    ensures
        routed(profiles, hits, model) is None,
{
    lemma_first_place_holds(profiles, is_spelled(model));
    lemma_first_place_holds(profiles, is_named(model));
    lemma_first_place(hits, |hit: bool| hit, hits.len() as int);
}

/// A request that names no model is served only through a pattern whose profile says which model
/// to use.
pub proof fn law_blank_models_need_a_target(
    profiles: Seq<CompiledProfileView>,
    hits: Seq<bool>,
    model: Seq<char>,
)
    requires
        hits.len() == profiles.len(),
        trimmed(model).len() == 0,
    ensures
        routed(profiles, hits, model) matches Some(route) ==> route.matched_glob
            && route.profile.upstream_model == Some(route.served_model),
{
}

/// The served model is the one that the profile names, else the name of the profile, else what the
/// request asked for.
pub proof fn law_served_model(
    profiles: Seq<CompiledProfileView>,
    hits: Seq<bool>,
    model: Seq<char>,
)
    requires
        hits.len() == profiles.len(),
        routed(profiles, hits, model) is Some,
    ensures
        ({
            let route = routed(profiles, hits, model)->0;
            route.served_model == match route.profile.upstream_model {
                Some(served) => served,
                None => if route.matched_glob {
                    trimmed(model)
                } else {
                    trimmed(route.profile_key)
                },
            }
        }),
{
}

/// Whitespace around the name of a model makes no difference.
pub proof fn law_routes_ignore_outer_whitespace(config: ConfigView, model: Seq<char>)
    ensures
        config.route(trimmed(model)) == config.route(model),
{
    let profiles = config.model_profiles;
    crate::text::lemma_trimmed_idempotent(model);
    assert(pattern_hits(profiles, trimmed(model)) =~= pattern_hits(profiles, model));
    assert(is_spelled(trimmed(model)) =~= is_spelled(model));
    assert(is_named(trimmed(model)) =~= is_named(model));
}

} // verus!
