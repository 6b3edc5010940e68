//! What holds of profiles and the templates that they extend.
use vstd::prelude::*;

use crate::collections::value_named;
use crate::text::trimmed;

use super::glob::is_glob;
use super::merge::merged_maps;
use super::profile::{
    compiled_profile, compiled_profiles, complete_profile, inherited, known_family, profile_place,
    same_name, upserted, whole_profile, PersistedModelProfileView, ResolvedModelProfileView,
};
use super::reasoning::filled_text;

verus! {

/// Whether no two of the profiles have the same name.
pub open spec fn names_differ(profiles: Seq<(Seq<char>, PersistedModelProfileView)>) -> bool {
    forall|i: int, j: int|
        0 <= i < j < profiles.len() ==> !same_name(
            (#[trigger] profiles[i]).0,
            (#[trigger] profiles[j]).0,
        )
}

proof fn lemma_profile_place_is_first(
    profiles: Seq<(Seq<char>, PersistedModelProfileView)>,
    name: Seq<char>,
)
    ensures
        profile_place(profiles, name) <= profiles.len(),
        profile_place(profiles, name) < profiles.len() ==> same_name(
            profiles[profile_place(profiles, name) as int].0,
            name,
        ),
        forall|k: int|
            0 <= k < profile_place(profiles, name) ==> !same_name((#[trigger] profiles[k]).0, name),
    decreases profiles.len(),
{
    if profiles.len() > 0 && !same_name(profiles[0].0, name) {
        let rest = profiles.drop_first();
        lemma_profile_place_is_first(rest, name);
        assert forall|k: int| 0 <= k < profile_place(profiles, name) implies !same_name(
            (#[trigger] profiles[k]).0,
            name,
        ) by {
            if k > 0 {
                assert(rest[k - 1] == profiles[k]);
            }
        }
    }
}

/// Declaring a profile keeps the others where they are and as they are, puts the new one in place of
/// the one with the same name or at the end, and never leaves two profiles with the same name.
pub proof fn law_declared_profiles_have_different_names(
    profiles: Seq<(Seq<char>, PersistedModelProfileView)>,
    name: Seq<char>,
    profile: PersistedModelProfileView,
)
    requires
        names_differ(profiles),
    ensures
        ({
            let after = upserted(profiles, name, profile);
            let place = profile_place(profiles, name) as int;
            &&& names_differ(after)
            &&& 0 <= place < after.len()
            &&& after[place] == (name, profile)
            &&& profiles.len() <= after.len() <= profiles.len() + 1
            &&& forall|k: int|
                0 <= k < profiles.len() && k != place ==> #[trigger] after[k] == profiles[k]
        }),
{
    lemma_profile_place_is_first(profiles, name);
    let after = upserted(profiles, name, profile);
    let place = profile_place(profiles, name) as int;
    assert forall|i: int, j: int| 0 <= i < j < after.len() implies !same_name(
        (#[trigger] after[i]).0,
        (#[trigger] after[j]).0,
    ) by {
        if i == place && place < profiles.len() {
            assert(after[j] == profiles[j]);
            assert(!same_name(profiles[i].0, profiles[j].0));
        } else if j == place {
            assert(after[i] == profiles[i]);
        } else {
            assert(after[i] == profiles[i] && after[j] == profiles[j]);
        }
    }
}

/// What a profile sets by itself goes over everything that it inherits.
pub proof fn law_own_settings_come_first(
    profile: PersistedModelProfileView,
    templates: Map<Seq<char>, PersistedModelProfileView>,
)
    requires
        complete_profile(profile, templates) is Ok,
    ensures
        ({
            let whole = complete_profile(profile, templates)->Ok_0;
            &&& filled_text(profile.upstream) is Some ==> whole.upstream == filled_text(
                profile.upstream,
            )
            &&& filled_text(profile.upstream_model) is Some ==> whole.upstream_model
                == filled_text(profile.upstream_model)
            &&& filled_text(profile.template_family) is Some ==> whole.template_family
                == filled_text(profile.template_family)
            &&& profile.roles is Some ==> whole.roles == profile.roles
            &&& profile.capabilities is Some ==> whole.capabilities == profile.capabilities
            &&& profile.fallbacks is Some ==> whole.fallbacks == profile.fallbacks
            &&& profile.image_analysis is Some ==> whole.image_analysis == profile.image_analysis
            &&& profile.reasoning_effort is Some ==> whole.reasoning_effort
                == profile.reasoning_effort
            &&& profile.reasoning_effort_default is Some ==> whole.reasoning_effort_default
                == profile.reasoning_effort_default
            &&& forall|level: Seq<char>| #[trigger]
                profile.reasoning_effort_map.dom().contains(level)
                    ==> whole.reasoning_effort_map.dom().contains(level)
                    && whole.reasoning_effort_map[level] == profile.reasoning_effort_map[level]
        }),
{
}

/// Of two profiles, one over the other, the upper decides on what it sets and the lower on the
/// rest; prompt prefixes add up, those of the lower first.
pub proof fn law_upper_settings_win(
    lower: ResolvedModelProfileView,
    upper: ResolvedModelProfileView,
)
    ensures
        ({
            let both = lower.with(upper);
            &&& both.upstream == if upper.upstream is Some {
                upper.upstream
            } else {
                lower.upstream
            }
            &&& both.upstream_model == if upper.upstream_model is Some {
                upper.upstream_model
            } else {
                lower.upstream_model
            }
            &&& both.fallbacks == if upper.fallbacks is Some {
                upper.fallbacks
            } else {
                lower.fallbacks
            }
            &&& both.system_prompt_prefixes == lower.system_prompt_prefixes
                + upper.system_prompt_prefixes
            &&& upper.reasoning_effort is Some ==> both.reasoning_effort == upper.reasoning_effort
                && both.reasoning_effort_map == upper.reasoning_effort_map
                && both.reasoning_effort_default == upper.reasoning_effort_default
            &&& both.upstream_chat_kwargs == merged_maps(
                lower.upstream_chat_kwargs,
                upper.upstream_chat_kwargs,
            )
        }),
{
    let both = lower.with(upper);
    if upper.reasoning_effort is Some {
        assert(both.reasoning_effort_map =~= upper.reasoning_effort_map);
    }
}

proof fn lemma_inherited_error_comes_up(
    profile: PersistedModelProfileView,
    templates: Map<Seq<char>, PersistedModelProfileView>,
    stack: Seq<Seq<char>>,
    room: nat,
    count: nat,
    at: nat,
)
    requires
        at < count <= profile.extends.len(),
        trimmed(profile.extends[at as int]).len() > 0,
        stack.contains(trimmed(profile.extends[at as int])),
    ensures
        inherited(profile, templates, stack, room, count) is Err,
    decreases count,
{
    if at < count - 1 {
        lemma_inherited_error_comes_up(profile, templates, stack, room, (count - 1) as nat, at);
    }
}

proof fn lemma_template_error_comes_up(
    profile: PersistedModelProfileView,
    templates: Map<Seq<char>, PersistedModelProfileView>,
    stack: Seq<Seq<char>>,
    room: nat,
    count: nat,
    at: nat,
    within: nat,
)
    requires
        at < count <= profile.extends.len(),
        trimmed(profile.extends[at as int]).len() > 0,
        value_named(templates, trimmed(profile.extends[at as int])) is Some,
        ({
            let name = trimmed(profile.extends[at as int]);
            let template = value_named(templates, name)->0;
            within < template.extends.len() && trimmed(template.extends[within as int]) == name
        }),
    ensures
        inherited(profile, templates, stack, room, count) is Err,
    decreases count,
{
    if at < count - 1 {
        lemma_template_error_comes_up(
            profile,
            templates,
            stack,
            room,
            (count - 1) as nat,
            at,
            within,
        );
    } else {
        let name = trimmed(profile.extends[at as int]);
        let template = value_named(templates, name)->0;
        if room > 0 && !stack.contains(name) {
            let deeper = stack.push(name);
            assert(deeper[stack.len() as int] == name);
            lemma_inherited_error_comes_up(
                template,
                templates,
                deeper,
                (room - 1) as nat,
                template.extends.len(),
                within,
            );
            assert(whole_profile(template, templates, deeper, (room - 1) as nat) is Err);
        }
    }
}

/// A profile cannot be put together if it extends a template that extends itself.
pub proof fn law_templates_cannot_extend_themselves(
    profile: PersistedModelProfileView,
    templates: Map<Seq<char>, PersistedModelProfileView>,
    at: nat,
    within: nat,
)
    requires
        at < profile.extends.len(),
        trimmed(profile.extends[at as int]).len() > 0,
        value_named(templates, trimmed(profile.extends[at as int])) is Some,
        ({
            let name = trimmed(profile.extends[at as int]);
            let template = value_named(templates, name)->0;
            within < template.extends.len() && trimmed(template.extends[within as int]) == name
        }),
    ensures
        complete_profile(profile, templates) is Err,
{
    let room = super::profile::all_names(profile, templates).len();
    lemma_template_error_comes_up(
        profile,
        templates,
        Seq::empty(),
        room,
        profile.extends.len(),
        at,
        within,
    );
}

/// Every profile that is ready for use has a key without whitespace around it, which is a pattern
/// exactly if it looks like one.
pub proof fn law_ready_profiles_have_keys(
    profiles: Seq<(Seq<char>, PersistedModelProfileView)>,
    templates: Map<Seq<char>, PersistedModelProfileView>,
    count: int,
    at: int,
)
    requires
        0 <= count <= profiles.len(),
        compiled_profiles(profiles, templates, count) is Ok,
        0 <= at < compiled_profiles(profiles, templates, count)->Ok_0.len(),
    ensures
        ({
            let ready = compiled_profiles(profiles, templates, count)->Ok_0[at];
            &&& ready.key.len() > 0
            &&& trimmed(ready.key) == ready.key
            &&& ready.glob is Some <==> is_glob(ready.key)
        }),
    decreases count,
{
    if count > 0 {
        let before = compiled_profiles(profiles, templates, count - 1)->Ok_0;
        if at < before.len() {
            law_ready_profiles_have_keys(profiles, templates, count - 1, at);
        } else {
            crate::text::lemma_trimmed_idempotent(profiles[count - 1].0);
        }
    }
}

/// Of two profiles, one over the other, the upper decides on roles, templates, capabilities and
/// images where it says something of them, and the lower where it does not.
pub proof fn law_lower_settings_stay(
    lower: ResolvedModelProfileView,
    upper: ResolvedModelProfileView,
)
    ensures
        ({
            let both = lower.with(upper);
            &&& both.roles == if upper.roles is Some {
                upper.roles
            } else {
                lower.roles
            }
            &&& both.template_family == if upper.template_family is Some {
                upper.template_family
            } else {
                lower.template_family
            }
            &&& both.capabilities == if upper.capabilities is Some {
                upper.capabilities
            } else {
                lower.capabilities
            }
            &&& both.image_analysis == if upper.image_analysis is Some {
                upper.image_analysis
            } else {
                lower.image_analysis
            }
        }),
{
}

/// Levels of effort are replaced one by one, and the two ways of configuring effort displace each
/// other.
pub proof fn law_levels_are_replaced_one_by_one(
    lower: ResolvedModelProfileView,
    upper: ResolvedModelProfileView,
    level: Seq<char>,
)
    ensures
        ({
            let both = lower.with(upper);
            let above = upper.reasoning_effort_map;
            let below = lower.reasoning_effort_map;
            &&& above.dom().contains(level) ==> both.reasoning_effort_map.dom().contains(level)
                && both.reasoning_effort_map[level] == above[level]
            &&& upper.reasoning_effort is None && !above.dom().contains(level)
                && below.dom().contains(level) ==> both.reasoning_effort_map.dom().contains(level)
                && both.reasoning_effort_map[level] == below[level]
            &&& upper.reasoning_effort is None && upper.reasoning_effort_default is None
                ==> both.reasoning_effort_default == lower.reasoning_effort_default
            &&& upper.reasoning_effort is None && above.dom().contains(level)
                ==> both.reasoning_effort is None
            &&& upper.reasoning_effort is None && upper.reasoning_effort_default is Some
                ==> both.reasoning_effort is None
            &&& upper.reasoning_effort is None && above == Map::<
                Seq<char>,
                crate::json::JsonView,
            >::empty() && upper.reasoning_effort_default is None ==> both.reasoning_effort
                == lower.reasoning_effort
        }),
{
    if upper.reasoning_effort_map.dom().contains(level) {
        assert(upper.reasoning_effort_map != Map::<Seq<char>, crate::json::JsonView>::empty());
    }
}

/// A profile that extends one template has from it whatever it does not set by itself, and says what
/// the template says in front of what it says by itself.
pub proof fn law_templates_are_inherited(
    profile: PersistedModelProfileView,
    templates: Map<Seq<char>, PersistedModelProfileView>,
    name: Seq<char>,
    template: PersistedModelProfileView,
)
    requires
        profile.extends == seq![name],
        trimmed(name).len() > 0,
        value_named(templates, trimmed(name)) == Some(template),
        template.extends.len() == 0,
        template.native_vision is None,
        profile.native_vision is None,
    ensures
        ({
            &&& complete_profile(profile, templates) matches Ok(whole)
            &&& filled_text(profile.upstream) is None ==> whole.upstream == filled_text(
                template.upstream,
            )
            &&& filled_text(profile.upstream_model) is None ==> whole.upstream_model
                == filled_text(template.upstream_model)
            &&& filled_text(profile.template_family) is None ==> whole.template_family
                == filled_text(template.template_family)
            &&& profile.roles is None ==> whole.roles == template.roles
            &&& profile.capabilities is None ==> whole.capabilities == template.capabilities
            &&& profile.fallbacks is None ==> whole.fallbacks == template.fallbacks
            &&& profile.image_analysis is None ==> whole.image_analysis == template.image_analysis
            &&& (match (
                filled_text(template.system_prompt_prefix),
                filled_text(profile.system_prompt_prefix),
            ) {
                (Some(given), Some(own)) => whole.system_prompt_prefixes == seq![given, own],
                (Some(given), None) => whole.system_prompt_prefixes == seq![given],
                (None, Some(own)) => whole.system_prompt_prefixes == seq![own],
                (None, None) => whole.system_prompt_prefixes.len() == 0,
            })
        }),
{
    reveal_with_fuel(inherited, 3);
    reveal_with_fuel(whole_profile, 3);
    let names = super::profile::all_names(profile, templates);
    assert(super::profile::names_extended(profile).len() == 1);
    assert(names.len() >= 1);
    let whole = complete_profile(profile, templates)->Ok_0;
    match (filled_text(template.system_prompt_prefix), filled_text(profile.system_prompt_prefix)) {
        (Some(given), Some(own)) => {
            assert(whole.system_prompt_prefixes =~= seq![given, own]);
        },
        (Some(given), None) => {
            assert(whole.system_prompt_prefixes =~= seq![given]);
        },
        (None, Some(own)) => {
            assert(whole.system_prompt_prefixes =~= seq![own]);
        },
        (None, None) => {},
    }
}

/// A template that is not there, or a setting that is gone, keeps a profile from being put together.
pub proof fn law_faulty_profiles_are_refused(
    profile: PersistedModelProfileView,
    templates: Map<Seq<char>, PersistedModelProfileView>,
)
    ensures
        profile.native_vision is Some ==> complete_profile(profile, templates) is Err,
        profile.extends.len() == 1 && trimmed(profile.extends[0]).len() > 0 && value_named(
            templates,
            trimmed(profile.extends[0]),
        ) is None ==> complete_profile(profile, templates) is Err,
        profile.extends.len() == 0 && profile.native_vision is None ==> complete_profile(
            profile,
            templates,
        ) is Ok,
{
    reveal_with_fuel(inherited, 2);
}

/// A profile that is ready for use is the one that was put together: its prompt prefixes are told in
/// their order with a blank line between each two, its fallbacks are those that it lists, and the
/// rest stays as it is.
pub proof fn law_finished_profiles_stay_as_they_are(
    resolved: ResolvedModelProfileView,
    first: Seq<char>,
    second: Seq<char>,
)
    requires
        resolved.system_prompt_prefixes == seq![first, second],
        trimmed(first).len() > 0,
        trimmed(second).len() > 0,
    ensures
        ({
            let profile = resolved.finished();
            &&& profile.system_prompt_prefix == Some(
                trimmed(first) + "\n\n"@ + trimmed(second),
            )
            &&& resolved.upstream matches Some(upstream) ==> profile.upstream == upstream
            &&& profile.upstream_model == resolved.upstream_model
            &&& profile.roles == resolved.roles
            &&& profile.upstream_chat_kwargs == resolved.upstream_chat_kwargs
            &&& profile.reasoning_effort_map == resolved.reasoning_effort_map
            &&& profile.reasoning_effort_default == resolved.reasoning_effort_default
            &&& profile.capabilities == resolved.capabilities
            &&& profile.reasoning_effort == resolved.reasoning_effort
            &&& profile.image_analysis == resolved.image_analysis
            &&& resolved.fallbacks is None ==> profile.fallbacks.len() == 0
            &&& resolved.fallbacks matches Some(listed) ==> profile.fallbacks.len() == listed.len()
                && forall|k: int|
                0 <= k < listed.len() ==> (#[trigger] profile.fallbacks[k]).upstream
                    == listed[k].upstream && profile.fallbacks[k].model == filled_text(
                    listed[k].model,
                )
        }),
{
    reveal_with_fuel(super::profile::filled_prefixes, 3);
    reveal_with_fuel(crate::text::joined, 3);
    let filled = super::profile::filled_prefixes(seq![first, second], 2);
    assert(filled =~= seq![trimmed(first), trimmed(second)]);
    assert(filled.drop_last() =~= seq![trimmed(first)]);
}

/// The name of a family is known in whatever case it is written, and other names stand for none.
pub proof fn law_families_are_known_by_name(name: Seq<char>)
    ensures
        crate::text::lowered(trimmed(name)) == "kimi"@ ==> known_family(Some(name)) == Some("kimi"@),
        crate::text::lowered(trimmed(name)) == "deepseek"@ ==> known_family(Some(name)) == Some(
            "deepseek"@,
        ),
        crate::text::lowered(trimmed(name)) != "kimi"@ && crate::text::lowered(trimmed(name))
            != "deepseek"@ ==> known_family(Some(name)) is None,
        known_family(None) is None,
{
    reveal_strlit("kimi");
    reveal_strlit("deepseek");
    assert("kimi"@.len() == 4);
    assert("deepseek"@.len() == 8);
}

/// Each declared profile with a name is ready for use under that name, as it was put together, in
/// the order of the declarations.
pub proof fn law_ready_profiles_are_those_declared(
    profiles: Seq<(Seq<char>, PersistedModelProfileView)>,
    templates: Map<Seq<char>, PersistedModelProfileView>,
    count: int,
    at: int,
)
    requires
        0 <= at < count <= profiles.len(),
        compiled_profiles(profiles, templates, count) is Ok,
        forall|k: int| 0 <= k < count ==> trimmed((#[trigger] profiles[k]).0).len() > 0,
    ensures
        ({
            let ready = compiled_profiles(profiles, templates, count)->Ok_0;
            &&& ready.len() == count
            &&& ready[at].key == trimmed(profiles[at].0)
            &&& complete_profile(profiles[at].1, templates) matches Ok(resolved)
            &&& ready[at].profile == resolved.finished()
        }),
    decreases count,
{
    assert(trimmed(profiles[count - 1].0).len() > 0);
    if count == 1 {
        assert(compiled_profiles(profiles, templates, 0)->Ok_0.len() == 0);
    } else {
        law_ready_profiles_are_those_declared(
            profiles,
            templates,
            count - 1,
            if at < count - 1 {
                at
            } else {
                0
            },
        );
    }
}

/// Of two templates that a profile extends, the later one decides on what it sets.
pub proof fn law_later_templates_win(
    profile: PersistedModelProfileView,
    templates: Map<Seq<char>, PersistedModelProfileView>,
    first: Seq<char>,
    second: Seq<char>,
    earlier: PersistedModelProfileView,
    later: PersistedModelProfileView,
)
    requires
        profile.extends == seq![first, second],
        trimmed(first).len() > 0,
        trimmed(second).len() > 0,
        value_named(templates, trimmed(first)) == Some(earlier),
        value_named(templates, trimmed(second)) == Some(later),
        earlier.extends.len() == 0,
        later.extends.len() == 0,
        earlier.native_vision is None,
        later.native_vision is None,
        profile.native_vision is None,
    ensures
        ({
            &&& complete_profile(profile, templates) matches Ok(whole)
            &&& filled_text(profile.upstream) is None && filled_text(later.upstream) is Some
                ==> whole.upstream == filled_text(later.upstream)
            &&& filled_text(profile.upstream) is None && filled_text(later.upstream) is None
                ==> whole.upstream == filled_text(earlier.upstream)
            &&& profile.capabilities is None && later.capabilities is Some ==> whole.capabilities
                == later.capabilities
            &&& profile.capabilities is None && later.capabilities is None ==> whole.capabilities
                == earlier.capabilities
        }),
{
    let names = super::profile::all_names(profile, templates);
    assert(super::profile::names_extended(profile).len() == 2);
    assert(names.len() >= 2);
    let none = Seq::<Seq<char>>::empty();
    let room = names.len();
    let empty = ResolvedModelProfileView::empty();
    let below = empty.with(super::profile::own_settings(earlier));
    let above = empty.with(super::profile::own_settings(later));
    lemma_lone_template(earlier, templates, none.push(trimmed(first)), (room - 1) as nat);
    lemma_lone_template(later, templates, none.push(trimmed(second)), (room - 1) as nat);
    assert(!none.contains(trimmed(first)) && !none.contains(trimmed(second)));
    assert(profile.extends[0] == first && profile.extends[1] == second);
    assert(inherited(profile, templates, none, room, 0) == Ok::<
        ResolvedModelProfileView,
        Seq<char>,
    >(empty));
    assert(inherited(profile, templates, none, room, 1) == Ok::<
        ResolvedModelProfileView,
        Seq<char>,
    >(empty.with(below)));
    assert(inherited(profile, templates, none, room, 2) == Ok::<
        ResolvedModelProfileView,
        Seq<char>,
    >(empty.with(below).with(above)));
}

proof fn lemma_lone_template(
    template: PersistedModelProfileView,
    templates: Map<Seq<char>, PersistedModelProfileView>,
    stack: Seq<Seq<char>>,
    room: nat,
)
    requires
        template.extends.len() == 0,
        template.native_vision is None,
    ensures
        whole_profile(template, templates, stack, room) == Ok::<
            ResolvedModelProfileView,
            Seq<char>,
        >(ResolvedModelProfileView::empty().with(super::profile::own_settings(template))),
{
    assert(inherited(template, templates, stack, room, 0) == Ok::<
        ResolvedModelProfileView,
        Seq<char>,
    >(ResolvedModelProfileView::empty()));
}

/// A profile that is ready for use has sound rules for roles, and configures effort in one way only.
pub proof fn law_ready_profiles_are_sound(
    name: Seq<char>,
    profile: PersistedModelProfileView,
    templates: Map<Seq<char>, PersistedModelProfileView>,
)
    requires
        compiled_profile(name, profile, templates) is Ok,
    ensures
        ({
            let ready = compiled_profile(name, profile, templates)->Ok_0.profile;
            &&& ready.roles matches Some(roles) ==> roles.problem() is None
            &&& ready.reasoning_effort is Some ==> ready.reasoning_effort_default is None
                && ready.reasoning_effort_map == Map::<Seq<char>, crate::json::JsonView>::empty()
        }),
{
}

} // verus!
