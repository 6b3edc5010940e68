//! What the profiles refer to has to exist.
use vstd::prelude::*;

use crate::text::{quoted, quoted_text, trimmed};

use super::profile::{
    names_agree, same_name, CompiledProfile, CompiledProfileView, ProfileFallback,
    ProfileFallbackView,
};
use super::routing::{find_named, first_place, is_named, lemma_first_place_holds};
use super::upstream::{UpstreamConfig, UpstreamConfigView};

verus! {

/// Whether there is an upstream with the given name.
pub open spec fn is_known(upstreams: Seq<UpstreamConfigView>, name: Seq<char>) -> bool {
    exists|k: int| 0 <= k < upstreams.len() && same_name((#[trigger] upstreams[k]).name, name)
}

/// Whether one of the first `count` fallbacks names the same upstream.
pub open spec fn is_repeated(
    fallbacks: Seq<ProfileFallbackView>,
    name: Seq<char>,
    count: int,
) -> bool {
    exists|k: int| 0 <= k < count && same_name((#[trigger] fallbacks[k]).upstream, name)
}

/// What is wrong with the fallback at `index`.
pub open spec fn fallback_problem(
    primary: Seq<char>,
    fallbacks: Seq<ProfileFallbackView>,
    upstreams: Seq<UpstreamConfigView>,
    index: int,
) -> Option<Seq<char>> {
    let name = fallbacks[index].upstream;
    if same_name(name, primary) {
        Some("fallback "@ + quoted(name) + " is the primary upstream"@)
    } else if !is_known(upstreams, name) {
        Some("unknown upstream "@ + quoted(name) + " in fallbacks"@)
    } else if is_repeated(fallbacks, name, index) {
        Some("duplicate fallback upstream "@ + quoted(name))
    } else {
        None
    }
}

/// What is wrong with the first `count` fallbacks.
pub open spec fn fallbacks_problem(
    primary: Seq<char>,
    fallbacks: Seq<ProfileFallbackView>,
    upstreams: Seq<UpstreamConfigView>,
    count: int,
) -> Option<Seq<char>>
    decreases count,
{
    if count <= 0 {
        None
    } else if fallbacks_problem(primary, fallbacks, upstreams, count - 1) is Some {
        fallbacks_problem(primary, fallbacks, upstreams, count - 1)
    } else {
        fallback_problem(primary, fallbacks, upstreams, count - 1)
    }
}

/// Whether one of the profiles has the given text as its pattern.
pub open spec fn is_pattern(profiles: Seq<CompiledProfileView>, name: Seq<char>) -> bool {
    exists|k: int|
        0 <= k < profiles.len() && (#[trigger] profiles[k]).glob is Some && same_name(
            profiles[k].key,
            name,
        )
}

/// What is wrong with the profile that `key` hands its images to.
pub open spec fn target_problem(
    profiles: Seq<CompiledProfileView>,
    key: Seq<char>,
    target: Seq<char>,
) -> Option<Seq<char>> {
    let place = first_place(profiles, is_named(target)) as int;
    if same_name(target, key) {
        Some("image_analysis cannot redirect to itself"@)
    } else if place < profiles.len() {
        if profiles[place].profile.image_analysis is Some {
            Some(
                "image_analysis target "@ + quoted(target) + " itself sets image_analysis"@,
            )
        } else {
            None
        }
    } else if is_pattern(profiles, target) {
        Some("image_analysis target "@ + quoted(target) + " is a glob profile"@)
    } else {
        Some("unknown image_analysis target "@ + quoted(target))
    }
}

/// What is wrong with a profile.
pub open spec fn profile_problem(
    profiles: Seq<CompiledProfileView>,
    upstreams: Seq<UpstreamConfigView>,
    compiled: CompiledProfileView,
) -> Option<Seq<char>> {
    let profile = compiled.profile;
    let fallbacks = fallbacks_problem(
        profile.upstream,
        profile.fallbacks,
        upstreams,
        profile.fallbacks.len() as int,
    );
    if trimmed(profile.upstream).len() == 0 {
        Some("`upstream` is required"@)
    } else if !is_known(upstreams, profile.upstream) {
        Some("unknown upstream "@ + quoted(profile.upstream))
    } else if fallbacks is Some {
        fallbacks
    } else {
        match profile.image_analysis {
            Some(analysis) => target_problem(profiles, compiled.key, analysis.model),
            None => None,
        }
    }
}

/// What is wrong with the first `count` profiles.
pub open spec fn profiles_problem(
    profiles: Seq<CompiledProfileView>,
    upstreams: Seq<UpstreamConfigView>,
    count: int,
) -> Option<Seq<char>>
    decreases count,
{
    if count <= 0 {
        None
    } else if profiles_problem(profiles, upstreams, count - 1) is Some {
        profiles_problem(profiles, upstreams, count - 1)
    } else {
        match profile_problem(profiles, upstreams, profiles[count - 1]) {
            Some(problem) => Some(
                "model_profiles["@ + profiles[count - 1].key + "]: "@ + problem,
            ),
            None => None,
        }
    }
}

proof fn lemma_fallbacks_problem_stays(
    primary: Seq<char>,
    fallbacks: Seq<ProfileFallbackView>,
    upstreams: Seq<UpstreamConfigView>,
    count: int,
    upto: int,
)
    requires
        0 <= upto <= count,
        fallbacks_problem(primary, fallbacks, upstreams, upto) is Some,
    ensures
        fallbacks_problem(primary, fallbacks, upstreams, count) == fallbacks_problem(
            primary,
            fallbacks,
            upstreams,
            upto,
        ),
    decreases count,
{
    if upto < count {
        lemma_fallbacks_problem_stays(primary, fallbacks, upstreams, count - 1, upto);
    }
}

proof fn lemma_profiles_problem_stays(
    profiles: Seq<CompiledProfileView>,
    upstreams: Seq<UpstreamConfigView>,
    count: int,
    upto: int,
)
    requires
        0 <= upto <= count,
        profiles_problem(profiles, upstreams, upto) is Some,
    ensures
        profiles_problem(profiles, upstreams, count) == profiles_problem(
            profiles,
            upstreams,
            upto,
        ),
    decreases count,
{
    if upto < count {
        lemma_profiles_problem_stays(profiles, upstreams, count - 1, upto);
    }
}

fn upstream_known(upstreams: &Vec<UpstreamConfig>, name: &str) -> (result: bool)
    ensures
        result == is_known(upstreams.deep_view(), name@),
{
    let ghost models = upstreams.deep_view();
    for index in 0..upstreams.len()
        invariant
            models == upstreams.deep_view(),
            forall|k: int| 0 <= k < index ==> !same_name((#[trigger] models[k]).name, name@),
    {
        assert(models[index as int] == upstreams@[index as int].deep_view());
        if names_agree(upstreams[index].name.as_str(), name) {
            assert(same_name(models[index as int].name, name@));
            return true;
        }
    }
    false
}

fn is_listed_before(fallbacks: &Vec<ProfileFallback>, index: usize) -> (result: bool)
    requires
        index < fallbacks@.len(),
    ensures
        result == is_repeated(
            fallbacks.deep_view(),
            fallbacks@[index as int].upstream@,
            index as int,
        ),
{
    let ghost models = fallbacks.deep_view();
    let ghost name = fallbacks@[index as int].upstream@;
    for at in 0..index
        invariant
            index < fallbacks@.len(),
            models == fallbacks.deep_view(),
            name == fallbacks@[index as int].upstream@,
            forall|k: int| 0 <= k < at ==> !same_name((#[trigger] models[k]).upstream, name),
    {
        assert(models[at as int] == fallbacks@[at as int].deep_view());
        if names_agree(fallbacks[at].upstream.as_str(), fallbacks[index].upstream.as_str()) {
            assert(same_name(models[at as int].upstream, name));
            return true;
        }
    }
    false
}

fn around(before: &str, quoted_name: &str, after: &str) -> (result: String)
    ensures
        result@ == before@ + quoted(quoted_name@) + after@,
{
    let mut result = before.to_string();
    result.push_str(quoted_text(quoted_name).as_str());
    result.push_str(after);
    result
}

fn behind(before: &str, quoted_name: &str) -> (result: String)
    ensures
        result@ == before@ + quoted(quoted_name@),
{
    let mut result = before.to_string();
    result.push_str(quoted_text(quoted_name).as_str());
    result
}

fn find_fallbacks_problem(
    primary: &str,
    fallbacks: &Vec<ProfileFallback>,
    upstreams: &Vec<UpstreamConfig>,
) -> (result: Option<String>)
    ensures
        result.deep_view() == fallbacks_problem(
            primary@,
            fallbacks.deep_view(),
            upstreams.deep_view(),
            fallbacks@.len() as int,
        ),
{
    let ghost models = fallbacks.deep_view();
    let ghost known = upstreams.deep_view();
    for index in 0..fallbacks.len()
        invariant
            models == fallbacks.deep_view(),
            known == upstreams.deep_view(),
            fallbacks_problem(primary@, models, known, index as int) is None,
    {
        assert(models[index as int] == fallbacks@[index as int].deep_view());
        let name = fallbacks[index].upstream.as_str();
        let problem = if names_agree(name, primary) {
            Some(around("fallback ", name, " is the primary upstream"))
        } else if !upstream_known(upstreams, name) {
            Some(around("unknown upstream ", name, " in fallbacks"))
        } else if is_listed_before(fallbacks, index) {
            Some(behind("duplicate fallback upstream ", name))
        } else {
            None
        };
        if problem.is_some() {
            proof {
                lemma_fallbacks_problem_stays(
                    primary@,
                    models,
                    known,
                    models.len() as int,
                    index + 1,
                );
            }
            return problem;
        }
    }
    None
}

fn has_pattern(profiles: &Vec<CompiledProfile>, name: &str) -> (result: bool)
    ensures
        result == is_pattern(profiles.deep_view(), name@),
{
    let ghost models = profiles.deep_view();
    for index in 0..profiles.len()
        invariant
            models == profiles.deep_view(),
            forall|k: int|
                0 <= k < index ==> !((#[trigger] models[k]).glob is Some && same_name(
                    models[k].key,
                    name@,
                )),
    {
        assert(models[index as int] == profiles@[index as int].deep_view());
        if profiles[index].glob.is_some() && names_agree(profiles[index].key.as_str(), name) {
            assert(models[index as int].glob is Some);
            return true;
        }
    }
    false
}

fn find_target_problem(profiles: &Vec<CompiledProfile>, key: &str, target: &str) -> (result: Option<
    String,
>)
    ensures
        result.deep_view() == target_problem(profiles.deep_view(), key@, target@),
{
    let ghost models = profiles.deep_view();
    if names_agree(target, key) {
        return Some("image_analysis cannot redirect to itself".to_string());
    }
    let place = find_named(profiles, target);
    proof {
        if place < profiles@.len() {
            assert(models[place as int] == profiles@[place as int].deep_view());
        }
    }
    if place < profiles.len() {
        if profiles[place].profile.image_analysis.is_some() {
            Some(around("image_analysis target ", target, " itself sets image_analysis"))
        } else {
            None
        }
    } else if has_pattern(profiles, target) {
        Some(around("image_analysis target ", target, " is a glob profile"))
    } else {
        Some(behind("unknown image_analysis target ", target))
    }
}

fn find_profile_problem(
    profiles: &Vec<CompiledProfile>,
    upstreams: &Vec<UpstreamConfig>,
    compiled: &CompiledProfile,
) -> (result: Option<String>)
    ensures
        result.deep_view() == profile_problem(
            profiles.deep_view(),
            upstreams.deep_view(),
            compiled.deep_view(),
        ),
{
    let profile = &compiled.profile;
    let primary = profile.upstream.as_str();
    if primary.trim().is_empty() {
        return Some("`upstream` is required".to_string());
    }
    if !upstream_known(upstreams, primary) {
        return Some(behind("unknown upstream ", primary));
    }
    let fallbacks = find_fallbacks_problem(primary, &profile.fallbacks, upstreams);
    if fallbacks.is_some() {
        return fallbacks;
    }
    match &profile.image_analysis {
        Some(analysis) => find_target_problem(
            profiles,
            compiled.key.as_str(),
            analysis.model.as_str(),
        ),
        None => None,
    }
}

/// Turns away profiles that refer to what does not exist: an upstream that is not known, a fallback
/// that is the first choice, unknown or named twice, or images that are handed to the profile
/// itself, to a pattern, to an unknown profile, or to one that hands its own images on.
pub fn validate_model_profiles(profiles: &Vec<CompiledProfile>, upstreams: &Vec<UpstreamConfig>) -> (result:
    Result<(), String>)
    ensures
        match profiles_problem(
            profiles.deep_view(),
            upstreams.deep_view(),
            profiles@.len() as int,
        ) {
            Some(problem) => result matches Err(message) && message@ == problem,
            None => result is Ok,
        },
{
    let ghost models = profiles.deep_view();
    let ghost known = upstreams.deep_view();
    for index in 0..profiles.len()
        invariant
            models == profiles.deep_view(),
            known == upstreams.deep_view(),
            profiles_problem(models, known, index as int) is None,
    {
        assert(models[index as int] == profiles@[index as int].deep_view());
        match find_profile_problem(profiles, upstreams, &profiles[index]) {
            Some(problem) => {
                let mut message = "model_profiles[".to_string();
                message.push_str(profiles[index].key.as_str());
                message.push_str("]: ");
                message.push_str(problem.as_str());
                proof {
                    lemma_profiles_problem_stays(models, known, models.len() as int, index + 1);
                }
                return Err(message);
            },
            None => {},
        }
    }
    Ok(())
}

// ---------------------------------------------------------------------------------------------
// Laws
// ---------------------------------------------------------------------------------------------

proof fn lemma_no_profile_problem(
    profiles: Seq<CompiledProfileView>,
    upstreams: Seq<UpstreamConfigView>,
    count: int,
    at: int,
)
    requires
        0 <= at < count <= profiles.len(),
        profiles_problem(profiles, upstreams, count) is None,
    ensures
        profile_problem(profiles, upstreams, profiles[at]) is None,
    decreases count,
{
    if at < count - 1 {
        lemma_no_profile_problem(profiles, upstreams, count - 1, at);
    }
}

proof fn lemma_no_fallback_problem(
    primary: Seq<char>,
    fallbacks: Seq<ProfileFallbackView>,
    upstreams: Seq<UpstreamConfigView>,
    count: int,
    at: int,
)
    requires
        0 <= at < count <= fallbacks.len(),
        fallbacks_problem(primary, fallbacks, upstreams, count) is None,
    ensures
        fallback_problem(primary, fallbacks, upstreams, at) is None,
    decreases count,
{
    if at < count - 1 {
        lemma_no_fallback_problem(primary, fallbacks, upstreams, count - 1, at);
    }
}

/// Every upstream that a profile can reach exists, and no fallback leads back to the first choice
/// or to an earlier fallback.
pub proof fn law_profiles_reach_only_known_upstreams(
    profiles: Seq<CompiledProfileView>,
    upstreams: Seq<UpstreamConfigView>,
    at: int,
    fallback: int,
)
    requires
        profiles_problem(profiles, upstreams, profiles.len() as int) is None,
        0 <= at < profiles.len(),
    ensures
        is_known(upstreams, profiles[at].profile.upstream),
        0 <= fallback < profiles[at].profile.fallbacks.len() ==> {
            let name = profiles[at].profile.fallbacks[fallback].upstream;
            &&& is_known(upstreams, name)
            &&& !same_name(name, profiles[at].profile.upstream)
            &&& !is_repeated(profiles[at].profile.fallbacks, name, fallback)
        },
{
    lemma_no_profile_problem(profiles, upstreams, profiles.len() as int, at);
    let profile = profiles[at].profile;
    if 0 <= fallback < profile.fallbacks.len() {
        lemma_no_fallback_problem(
            profile.upstream,
            profile.fallbacks,
            upstreams,
            profile.fallbacks.len() as int,
            fallback,
        );
    }
}

/// A profile that hands its images on hands them to another profile with a name, and that one
/// keeps them: images are handed on at most once.
pub proof fn law_images_are_handed_on_once(
    profiles: Seq<CompiledProfileView>,
    upstreams: Seq<UpstreamConfigView>,
    at: int,
)
    requires
        profiles_problem(profiles, upstreams, profiles.len() as int) is None,
        0 <= at < profiles.len(),
        profiles[at].profile.image_analysis is Some,
    ensures
        ({
            let target = profiles[at].profile.image_analysis->0.model;
            let place = first_place(profiles, is_named(target)) as int;
            &&& place < profiles.len()
            &&& profiles[place].glob is None
            &&& same_name(profiles[place].key, target)
            &&& !same_name(profiles[place].key, profiles[at].key)
            &&& profiles[place].profile.image_analysis is None
        }),
{
    lemma_no_profile_problem(profiles, upstreams, profiles.len() as int, at);
    lemma_first_place_holds(
        profiles,
        is_named(profiles[at].profile.image_analysis->0.model),
    );
}

} // verus!
