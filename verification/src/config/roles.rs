//! What happens to the messages of a conversation, by their roles.
use vstd::prelude::*;

use crate::collections::{sorted_entries, TextMap};
use crate::duplicate::Duplicate;
use crate::text::{chars_of, same_text, trimmed};

verus! {

/// What happens to a message.
#[derive(Clone, Copy, Debug, PartialEq, Eq, Structural)]
pub enum Action {
    Accept,
    Reject,
    Drop,
    Rewrite,
}

impl DeepView for Action {
    type V = Action;

    open spec fn deep_view(&self) -> Action {
        *self
    }
}

impl Duplicate for Action {
    fn duplicate(&self) -> (copy: Self) {
        *self
    }
}

/// Where a message stands that a rule is for.
#[derive(Clone, Copy, Debug, PartialEq, Eq, Structural)]
pub enum When {
    Leading,
    Inline,
    Always,
}

impl DeepView for When {
    type V = When;

    open spec fn deep_view(&self) -> When {
        *self
    }
}

impl Duplicate for When {
    fn duplicate(&self) -> (copy: Self) {
        *self
    }
}

/// What happens to messages of a role.
#[derive(Debug, PartialEq)]
pub struct RoleRule {
    pub when: Option<When>,
    pub action: Action,
    pub target_role: Option<String>,
    pub tag: Option<String>,
    pub tag_attributes: TextMap<String>,
}

/// The model of [`RoleRule`].
pub struct RoleRuleView {
    pub when: Option<When>,
    pub action: Action,
    pub target_role: Option<Seq<char>>,
    pub tag: Option<Seq<char>>,
    pub tag_attributes: Map<Seq<char>, Seq<char>>,
}

impl DeepView for RoleRule {
    type V = RoleRuleView;

    open spec fn deep_view(&self) -> RoleRuleView {
        RoleRuleView {
            when: self.when.deep_view(),
            action: self.action,
            target_role: self.target_role.deep_view(),
            tag: self.tag.deep_view(),
            tag_attributes: self.tag_attributes.deep_view(),
        }
    }
}

impl Duplicate for RoleRule {
    fn duplicate(&self) -> (copy: Self) {
        RoleRule {
            when: self.when.duplicate(),
            action: self.action,
            target_role: self.target_role.duplicate(),
            tag: self.tag.duplicate(),
            tag_attributes: self.tag_attributes.duplicate(),
        }
    }
}

/// The rules for a role, in the order in which they are tried.
#[derive(Debug, PartialEq)]
pub struct RoleRuleSet {
    pub rules: Vec<RoleRule>,
}

/// The model of [`RoleRuleSet`].
pub struct RoleRuleSetView {
    pub rules: Seq<RoleRuleView>,
}

impl DeepView for RoleRuleSet {
    type V = RoleRuleSetView;

    open spec fn deep_view(&self) -> RoleRuleSetView {
        RoleRuleSetView {
            rules: self.rules.deep_view(),
        }
    }
}

impl Duplicate for RoleRuleSet {
    fn duplicate(&self) -> (copy: Self) {
        RoleRuleSet {
            rules: self.rules.duplicate(),
        }
    }
}

/// What happens to the messages of a conversation, by their roles.
#[derive(Debug, PartialEq)]
pub struct RolesConfig {
    pub merge_adjacent: Vec<String>,
    pub rules: TextMap<RoleRuleSet>,
}

/// The model of [`RolesConfig`].
pub struct RolesConfigView {
    pub merge_adjacent: Seq<Seq<char>>,
    pub rules: Map<Seq<char>, RoleRuleSetView>,
}

impl DeepView for RolesConfig {
    type V = RolesConfigView;

    open spec fn deep_view(&self) -> RolesConfigView {
        RolesConfigView {
            merge_adjacent: self.merge_adjacent.deep_view(),
            rules: self.rules.deep_view(),
        }
    }
}

impl Duplicate for RolesConfig {
    fn duplicate(&self) -> (copy: Self) {
        RolesConfig {
            merge_adjacent: self.merge_adjacent.duplicate(),
            rules: self.rules.duplicate(),
        }
    }
}

/// Whether `c` may stand in the name of a tag.
pub open spec fn is_tag_char(c: char) -> bool {
    ||| '0' as int <= c as int <= '9' as int
    ||| 'a' as int <= c as int <= 'z' as int
    ||| 'A' as int <= c as int <= 'Z' as int
    ||| c == '_'
    ||| c == '-'
    ||| c == ':'
    ||| c == '.'
}

/// Whether `name`, trimmed, may name a tag.
pub open spec fn is_tag_name(name: Seq<char>) -> bool {
    trimmed(name).len() > 0 && forall|i: int|
        0 <= i < trimmed(name).len() ==> is_tag_char(#[trigger] trimmed(name)[i])
}

/// Whether `name`, trimmed, may name a tag.
pub fn valid_tag_name(name: &str) -> (result: bool)
    ensures
        result == is_tag_name(name@),
{
    let inner = name.trim();
    if inner.is_empty() {
        return false;
    }
    let chars = chars_of(inner);
    for index in 0..chars.len()
        invariant
            chars@ == inner@,
            inner@ == trimmed(name@),
            forall|i: int| 0 <= i < index ==> is_tag_char(#[trigger] inner@[i]),
    {
        let c: char = chars[index];
        let fits = ('0' <= c && c <= '9') || ('a' <= c && c <= 'z') || ('A' <= c && c <= 'Z') || c
            == '_' || c == '-' || c == ':' || c == '.';
        if !fits {
            assert(!is_tag_char(trimmed(name@)[index as int]));
            return false;
        }
    }
    true
}

/// Whether a rule names the role that it rewrites messages to.
pub open spec fn has_target(rule: RoleRuleView) -> bool {
    rule.target_role matches Some(target) && trimmed(target).len() > 0
}

/// Whether one of the keys cannot name an attribute.
pub open spec fn has_bad_key(attributes: Map<Seq<char>, Seq<char>>) -> bool {
    exists|key: Seq<char>| #[trigger] attributes.dom().contains(key) && !is_tag_name(key)
}

/// What is wrong with a rule.
pub open spec fn rule_problem(rule: RoleRuleView) -> Option<Seq<char>> {
    if rule.action == Action::Rewrite && !has_target(rule) {
        Some("action `rewrite` requires a non-empty `target_role`"@)
    } else if rule.action != Action::Rewrite && rule.target_role is Some {
        Some("`target_role` is only valid with action `rewrite`"@)
    } else if rule.tag matches Some(tag) && !is_tag_name(tag) {
        Some("invalid tag name"@)
    } else if rule.tag_attributes != Map::<Seq<char>, Seq<char>>::empty() && rule.tag is None {
        Some("`tag_attributes` requires a non-empty `tag`"@)
    } else if has_bad_key(rule.tag_attributes) {
        Some("invalid tag attribute name"@)
    } else {
        None
    }
}

/// What is wrong with the first `count` rules: the problem of the first that has one.
pub open spec fn rules_problem(rules: Seq<RoleRuleView>, count: int) -> Option<Seq<char>>
    decreases count,
{
    if count <= 0 {
        None
    } else if rules_problem(rules, count - 1) is Some {
        rules_problem(rules, count - 1)
    } else {
        rule_problem(rules[count - 1])
    }
}

/// What is wrong with the rules of the first `count` roles.
pub open spec fn role_rules_problem(roles: Seq<(Seq<char>, RoleRuleSetView)>, count: int) -> Option<
    Seq<char>,
>
    decreases count,
{
    if count <= 0 {
        None
    } else if role_rules_problem(roles, count - 1) is Some {
        role_rules_problem(roles, count - 1)
    } else {
        let (role, set) = roles[count - 1];
        match rules_problem(set.rules, set.rules.len() as int) {
            Some(problem) => Some("roles["@ + role + "]: "@ + problem),
            None => None,
        }
    }
}

/// Whether messages of a role have nothing but content, so that merging them loses nothing.
pub open spec fn is_merge_safe(role: Seq<char>) -> bool {
    role == "system"@ || role == "developer"@ || role == "user"@
}

/// What is wrong with the first `count` roles whose neighbours are to be merged.
pub open spec fn merge_problem(roles: Seq<Seq<char>>, count: int) -> Option<Seq<char>>
    decreases count,
{
    if count <= 0 {
        None
    } else if merge_problem(roles, count - 1) is Some {
        merge_problem(roles, count - 1)
    } else if is_merge_safe(roles[count - 1]) {
        None
    } else {
        Some(
            "merge_adjacent["@ + roles[count - 1]
                + "]: only content-only roles [\"system\", \"developer\", \"user\"] may be merged (merging `tool`/`assistant` discards tool_call_id/tool_calls)"@,
        )
    }
}

impl RolesConfigView {
    /// What is wrong with the configuration.
    pub open spec fn problem(self) -> Option<Seq<char>> {
        let roles = sorted_entries(self.rules);
        if role_rules_problem(roles, roles.len() as int) is Some {
            role_rules_problem(roles, roles.len() as int)
        } else {
            merge_problem(self.merge_adjacent, self.merge_adjacent.len() as int)
        }
    }

    /// The rules for a role: its own, or else those for any role.
    pub open spec fn rules_of(self, role: Seq<char>) -> Option<Seq<RoleRuleView>> {
        if self.rules.dom().contains(role) {
            Some(self.rules[role].rules)
        } else if self.rules.dom().contains("*"@) {
            Some(self.rules["*"@].rules)
        } else {
            None
        }
    }
}

proof fn lemma_rules_problem_stays(rules: Seq<RoleRuleView>, count: int, upto: int)
    requires
        0 <= upto <= count,
        rules_problem(rules, upto) is Some,
    ensures
        rules_problem(rules, count) == rules_problem(rules, upto),
    decreases count,
{
    if upto < count {
        lemma_rules_problem_stays(rules, count - 1, upto);
    }
}

proof fn lemma_role_rules_problem_stays(
    roles: Seq<(Seq<char>, RoleRuleSetView)>,
    count: int,
    upto: int,
)
    requires
        0 <= upto <= count,
        role_rules_problem(roles, upto) is Some,
    ensures
        role_rules_problem(roles, count) == role_rules_problem(roles, upto),
    decreases count,
{
    if upto < count {
        lemma_role_rules_problem_stays(roles, count - 1, upto);
    }
}

proof fn lemma_merge_problem_stays(roles: Seq<Seq<char>>, count: int, upto: int)
    requires
        0 <= upto <= count,
        merge_problem(roles, upto) is Some,
    ensures
        merge_problem(roles, count) == merge_problem(roles, upto),
    decreases count,
{
    if upto < count {
        lemma_merge_problem_stays(roles, count - 1, upto);
    }
}

fn has_invalid_attribute(attributes: &TextMap<String>) -> (result: bool)
    ensures
        result == has_bad_key(attributes.deep_view()),
{
    let count: usize = attributes.len();
    let ghost listed = attributes.listed();
    for index in 0..count
        invariant
            count == listed.len(),
            listed == attributes.listed(),
            forall|k: int| 0 <= k < index ==> is_tag_name((#[trigger] listed[k]).0),
    {
        let key = attributes.key_at(index);
        if !valid_tag_name(key.as_str()) {
            assert(attributes.deep_view().dom().contains(key@) && !is_tag_name(key@));
            return true;
        }
    }
    proof {
        attributes.lemma_listed();
        assert forall|key: Seq<char>| #[trigger] attributes.deep_view().dom().contains(key) implies is_tag_name(
            key,
        ) by {
            let k = choose|k: int| 0 <= k < listed.len() && (#[trigger] listed[k]).0 == key;
            assert(is_tag_name(listed[k].0));
        }
    }
    false
}

fn find_rule_problem(rule: &RoleRule) -> (result: Option<String>)
    ensures
        result.deep_view() == rule_problem(rule.deep_view()),
{
    let targets = match &rule.target_role {
        Some(target) => !target.as_str().trim().is_empty(),
        None => false,
    };
    if rule.action == Action::Rewrite && !targets {
        return Some("action `rewrite` requires a non-empty `target_role`".to_string());
    }
    if rule.action != Action::Rewrite && rule.target_role.is_some() {
        return Some("`target_role` is only valid with action `rewrite`".to_string());
    }
    if let Some(tag) = &rule.tag {
        if !valid_tag_name(tag.as_str()) {
            return Some("invalid tag name".to_string());
        }
    }
    if !rule.tag_attributes.is_empty() && rule.tag.is_none() {
        return Some("`tag_attributes` requires a non-empty `tag`".to_string());
    }
    if has_invalid_attribute(&rule.tag_attributes) {
        return Some("invalid tag attribute name".to_string());
    }
    None
}

fn find_rules_problem(rules: &Vec<RoleRule>) -> (result: Option<String>)
    ensures
        result.deep_view() == rules_problem(rules.deep_view(), rules@.len() as int),
{
    let ghost models = rules.deep_view();
    for index in 0..rules.len()
        invariant
            models == rules.deep_view(),
            rules_problem(models, index as int) is None,
    {
        assert(models[index as int] == rules@[index as int].deep_view());
        let problem = find_rule_problem(&rules[index]);
        if problem.is_some() {
            proof {
                lemma_rules_problem_stays(models, models.len() as int, index + 1);
            }
            return problem;
        }
    }
    None
}

impl RolesConfig {
    /// The rules for a role: its own, or else those for any role.
    pub fn rules_for(&self, role: &str) -> (result: Option<&Vec<RoleRule>>)
        ensures
            result.deep_view() == self.deep_view().rules_of(role@),
    {
        match self.rules.get(role) {
            Some(set) => Some(&set.rules),
            None => match self.rules.get("*") {
                Some(set) => Some(&set.rules),
                None => None,
            },
        }
    }

    /// Turns away rules that make no sense, and merging of roles that would lose something.
    pub fn validate(&self) -> (result: Result<(), String>)
        ensures
            match self.deep_view().problem() {
                Some(problem) => result matches Err(message) && message@ == problem,
                None => result is Ok,
            },
    {
        let count: usize = self.rules.count();
        let ghost roles = sorted_entries(self.rules.deep_view());
        for index in 0..count
            invariant
                count == roles.len(),
                roles == self.rules.listed(),
                roles == sorted_entries(self.rules.deep_view()),
                role_rules_problem(roles, index as int) is None,
        {
            let role = self.rules.key_at(index);
            let set = self.rules.value_at(index);
            match find_rules_problem(&set.rules) {
                Some(problem) => {
                    let mut message = "roles[".to_string();
                    message.push_str(role.as_str());
                    message.push_str("]: ");
                    message.push_str(problem.as_str());
                    proof {
                        assert(roles[index as int] == (role@, set.deep_view()));
                        lemma_role_rules_problem_stays(roles, roles.len() as int, index + 1);
                    }
                    return Err(message);
                },
                None => {
                    assert(roles[index as int] == (role@, set.deep_view()));
                },
            }
        }
        let ghost merged = self.merge_adjacent.deep_view();
        for index in 0..self.merge_adjacent.len()
            invariant
                merged == self.merge_adjacent.deep_view(),
                roles == sorted_entries(self.rules.deep_view()),
                role_rules_problem(roles, roles.len() as int) is None,
                merge_problem(merged, index as int) is None,
        {
            assert(merged[index as int] == self.merge_adjacent@[index as int]@);
            let role = self.merge_adjacent[index].as_str();
            if !(same_text(role, "system") || same_text(role, "developer") || same_text(
                role,
                "user",
            )) {
                let mut message = "merge_adjacent[".to_string();
                message.push_str(role);
                message.push_str(
                    "]: only content-only roles [\"system\", \"developer\", \"user\"] may be merged (merging `tool`/`assistant` discards tool_call_id/tool_calls)",
                );
                proof {
                    lemma_merge_problem_stays(merged, merged.len() as int, index + 1);
                }
                return Err(message);
            }
        }
        Ok(())
    }
}

/// A role without rules of its own has those for any role, and without these it has none: the
/// configuration then lets nothing of it through.
pub proof fn law_rules_fall_back_to_any_role(config: RolesConfigView, role: Seq<char>)
    ensures
        config.rules.dom().contains(role) ==> config.rules_of(role) == Some(
            config.rules[role].rules,
        ),
        !config.rules.dom().contains(role) ==> config.rules_of(role) == config.rules_of("*"@),
        !config.rules.dom().contains(role) && !config.rules.dom().contains("*"@)
            ==> config.rules_of(role) is None,
{
}

proof fn lemma_merge_problem_none(roles: Seq<Seq<char>>, count: int)
    requires
        0 <= count <= roles.len(),
        merge_problem(roles, count) is None,
    ensures
        forall|k: int| 0 <= k < count ==> is_merge_safe(#[trigger] roles[k]),
    decreases count,
{
    if count > 0 {
        lemma_merge_problem_none(roles, count - 1);
    }
}

/// Only roles whose messages have nothing but content are ever merged.
pub proof fn law_only_content_roles_are_merged(config: RolesConfigView, role: Seq<char>)
    requires
        config.problem() is None,
        config.merge_adjacent.contains(role),
    ensures
        is_merge_safe(role),
{
    lemma_merge_problem_none(config.merge_adjacent, config.merge_adjacent.len() as int);
}

} // verus!
