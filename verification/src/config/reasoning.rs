//! How the effort that a client asks for reaches a model.
use vstd::prelude::*;

use crate::collections::{sorted_entries, TextMap};
use crate::duplicate::Duplicate;
use crate::json::{Json, JsonView};
use crate::text::{lowered, trimmed};

verus! {

/// How the effort that a client asks for reaches a model.
#[derive(Debug, PartialEq)]
pub struct ReasoningConfig {
    pub default: Option<String>,
    pub map: TextMap<String>,
    pub thinking_param_name: String,
    pub thinking_param_value_on: Json,
    pub thinking_param_value_off: Json,
}

/// The model of [`ReasoningConfig`].
pub struct ReasoningConfigView {
    pub default: Option<Seq<char>>,
    pub map: Map<Seq<char>, Seq<char>>,
    pub thinking_param_name: Seq<char>,
    pub thinking_param_value_on: JsonView,
    pub thinking_param_value_off: JsonView,
}

impl DeepView for ReasoningConfig {
    type V = ReasoningConfigView;

    open spec fn deep_view(&self) -> ReasoningConfigView {
        ReasoningConfigView {
            default: self.default.deep_view(),
            map: self.map.deep_view(),
            thinking_param_name: self.thinking_param_name@,
            thinking_param_value_on: self.thinking_param_value_on.deep_view(),
            thinking_param_value_off: self.thinking_param_value_off.deep_view(),
        }
    }
}

impl Duplicate for ReasoningConfig {
    fn duplicate(&self) -> (copy: Self) {
        ReasoningConfig {
            default: self.default.duplicate(),
            map: self.map.duplicate(),
            thinking_param_name: self.thinking_param_name.clone(),
            thinking_param_value_on: self.thinking_param_value_on.duplicate(),
            thinking_param_value_off: self.thinking_param_value_off.duplicate(),
        }
    }
}

/// The parameter that switches thinking on and off, where none is named.
pub const DEFAULT_THINKING_PARAM_NAME: &'static str = "enable_thinking";

impl Default for ReasoningConfig {
    fn default() -> (result: Self)
        ensures
            result.deep_view() == (ReasoningConfigView {
                default: None,
                map: Map::empty(),
                thinking_param_name: DEFAULT_THINKING_PARAM_NAME@,
                thinking_param_value_on: JsonView::Bool(true),
                thinking_param_value_off: JsonView::Bool(false),
            }),
    {
        ReasoningConfig {
            default: None,
            map: TextMap::new(),
            thinking_param_name: DEFAULT_THINKING_PARAM_NAME.to_string(),
            thinking_param_value_on: Json::Bool(true),
            thinking_param_value_off: Json::Bool(false),
        }
    }
}

impl ReasoningConfig {
    /// The value that switches thinking on or off.
    pub fn thinking_param_value(&self, on: bool) -> (result: &Json)
        ensures
            result.deep_view() == if on {
                self.deep_view().thinking_param_value_on
            } else {
                self.deep_view().thinking_param_value_off
            },
    {
        if on {
            &self.thinking_param_value_on
        } else {
            &self.thinking_param_value_off
        }
    }
}

/// The trimmed text, unless nothing is left of it.
pub open spec fn filled_text(text: Option<Seq<char>>) -> Option<Seq<char>> {
    match text {
        Some(inner) => if trimmed(inner).len() > 0 {
            Some(trimmed(inner))
        } else {
            None
        },
        None => None,
    }
}

/// The trimmed text, unless nothing is left of it.
pub fn trim_nonempty(text: &Option<String>) -> (result: Option<String>)
    ensures
        result.deep_view() == filled_text(text.deep_view()),
{
    match text {
        Some(inner) => {
            let inner = inner.as_str().trim();
            if inner.is_empty() {
                None
            } else {
                Some(inner.to_string())
            }
        },
        None => None,
    }
}

/// The levels of the first `count` entries: keys trimmed and in lower case, values trimmed, blank
/// ones left out.
pub open spec fn tidy_levels(entries: Seq<(Seq<char>, Seq<char>)>, count: int) -> Map<
    Seq<char>,
    Seq<char>,
>
    decreases count,
{
    if count <= 0 {
        Map::empty()
    } else {
        let (key, value) = entries[count - 1];
        let before = tidy_levels(entries, count - 1);
        if trimmed(key).len() > 0 && trimmed(value).len() > 0 {
            before.insert(lowered(trimmed(key)), trimmed(value))
        } else {
            before
        }
    }
}

impl ReasoningConfigView {
    /// The configuration as it is used: everything trimmed, levels in lower case, blanks left out.
    pub open spec fn tidied(self) -> Self {
        let entries = sorted_entries(self.map);
        ReasoningConfigView {
            default: filled_text(self.default),
            map: tidy_levels(entries, entries.len() as int),
            thinking_param_name: if trimmed(self.thinking_param_name).len() > 0 {
                trimmed(self.thinking_param_name)
            } else {
                DEFAULT_THINKING_PARAM_NAME@
            },
            ..self
        }
    }
}

impl ReasoningConfig {
    /// The configuration as it is used.
    pub fn tidy(self) -> (result: Self)
        ensures
            result.deep_view() == self.deep_view().tidied(),
    {
        let ghost given = self.deep_view();
        let mut map: TextMap<String> = TextMap::new();
        let count: usize = self.map.count();
        let ghost entries = sorted_entries(given.map);
        for index in 0..count
            invariant
                given == self.deep_view(),
                count == entries.len(),
                entries == sorted_entries(given.map),
                entries == self.map.listed(),
                map.deep_view() == tidy_levels(entries, index as int),
        {
            let key = self.map.key_at(index).as_str().trim();
            let value = self.map.value_at(index).as_str().trim();
            if !key.is_empty() && !value.is_empty() {
                map.insert(key.to_ascii_lowercase(), value.to_string());
            }
        }
        let name = self.thinking_param_name.as_str().trim();
        let thinking_param_name = if name.is_empty() {
            DEFAULT_THINKING_PARAM_NAME.to_string()
        } else {
            name.to_string()
        };
        ReasoningConfig {
            default: trim_nonempty(&self.default),
            map,
            thinking_param_name,
            thinking_param_value_on: self.thinking_param_value_on,
            thinking_param_value_off: self.thinking_param_value_off,
        }
    }
}

} // verus!
